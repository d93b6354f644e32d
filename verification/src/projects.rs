//! Wiki projects: where they are created, which checks opening them makes,
//! and how the project list is assembled and ordered.
use vstd::prelude::*;
use crate::auth::{AuthUser, User};
use crate::paths::{join, path_join, file_name_or, path_file_name, paths_equal, same_path};
use crate::text::{is_blank, is_prefix, lex_less, lex_lt, lemma_lex_irreflexive, lemma_lex_total, lemma_lex_transitive,
    str_eq, trim_ws};

verus! {

/// A project as the database records it.
#[derive(Debug, Clone)]
pub struct WikiProject {
    pub id: String,
    pub name: String,
    pub path: String,
}

/// The body of a request that creates a project.
#[derive(Debug)]
pub struct CreateProjectBody {
    pub name: String,
    pub path: Option<String>,
}

/// The body of a request that opens a project by name.
#[derive(Debug)]
pub struct OpenProjectBody {
    pub name: String,
}

/// The body of a request that opens a project by path.
#[derive(Debug)]
pub struct OpenProjectByPathBody {
    pub path: String,
}

/// The body of a request that adds a project to the recent list.
#[derive(Debug)]
pub struct AddProjectBody {
    pub project: WikiProject,
}

/// The body of a request that removes a project from the recent list.
#[derive(Debug)]
pub struct RemoveProjectBody {
    pub path: String,
}

/// The body of a request that gives a project to another user.
#[derive(Debug)]
pub struct AssignProjectBody {
    pub project_id: String,
    pub user_id: String,
}

/// One entry of the project list.
#[derive(Debug, Clone)]
pub struct ProjectInfo {
    pub id: Option<String>,
    pub name: String,
    pub path: String,
    pub has_wiki: bool,
    pub last_opened_at: Option<i64>,
    pub owner: Option<String>,
}

/// A project directory found on disk.
#[derive(Debug, Clone)]
pub struct DiskProject {
    pub name: String,
    pub path: String,
    pub has_wiki: bool,
}

/// A project row of the database with its last-opened time, the username
/// of its owner, if it has one, and whether its directory holds a wiki
/// folder.
#[derive(Debug, Clone)]
pub struct OwnedProject {
    pub project: WikiProject,
    pub last_opened_at: i64,
    pub owner: Option<String>,
    pub has_wiki: bool,
}

/// Which projects a user is shown.
pub enum ProjectScope {
    /// Every project (administrators).
    All,
    /// The projects of this user id.
    OwnedBy(String),
}

/// Administrators see every project, other users their own.
pub fn project_scope(auth: &AuthUser) -> (r: ProjectScope)
    ensures
        auth.spec_is_admin() ==> r is All,
        !auth.spec_is_admin() ==> (r matches ProjectScope::OwnedBy(id) && id == auth.user_id),
{
    if auth.is_admin() {
        ProjectScope::All
    } else {
        ProjectScope::OwnedBy(auth.user_id.clone())
    }
}

/// Checks that a path belongs to the authenticated user (see
/// `AuthUser::validate_path`).
pub fn validate_user_path(auth_user: &AuthUser, path: &str, projects_dir: &str) -> (r: Result<(), String>)
    ensures
        r is Ok <==> auth_user.may_access(path@, projects_dir@),
        r matches Err(e) ==> e@ == "Access denied: path '"@ + path@ + "' is outside your project directory"@,
{
    auth_user.validate_path(path, projects_dir)
}

/// The directory a new project would go to: `<base>/<name>`, where the base
/// is the requested path unless it is blank, and the user's own directory
/// `<projects_dir>/<user_id>` otherwise.
pub open spec fn spec_project_root(custom: Option<String>, projects_dir: Seq<char>, user_id: Seq<char>, name: Seq<char>) -> Seq<char> {
    let base = match custom {
        Some(p) => if trim_ws(p@).len() == 0 {
            path_join(projects_dir, user_id)
        } else {
            p@
        },
        None => path_join(projects_dir, user_id),
    };
    path_join(base, name)
}

/// Where a new project goes: under the user's own directory (an
/// administrator may place it anywhere). A requested path that would put it
/// elsewhere is refused with the access-denied message of that directory.
pub open spec fn spec_create_target(auth: AuthUser, custom: Option<String>, projects_dir: Seq<char>, name: Seq<char>) -> Result<Seq<char>, Seq<char>> {
    let root = spec_project_root(custom, projects_dir, auth.user_id@, name);
    if auth.may_access(root, projects_dir) {
        Ok(root)
    } else {
        Err("Access denied: path '"@ + root + "' is outside your project directory"@)
    }
}

/// The directory a new project goes to, refused when it would lie outside
/// the user's own directory.
pub fn project_root(auth: &AuthUser, custom: &Option<String>, projects_dir: &str, name: &str) -> (r: Result<String, String>)
    ensures
        r matches Ok(p) ==> spec_create_target(*auth, *custom, projects_dir@, name@) == Ok::<Seq<char>, Seq<char>>(p@),
        r matches Err(e) ==> spec_create_target(*auth, *custom, projects_dir@, name@) == Err::<Seq<char>, Seq<char>>(e@),
{
    let base = match custom {
        Some(p) => if is_blank(p.as_str()) {
            join(projects_dir, auth.user_id.as_str())
        } else {
            p.clone()
        },
        None => join(projects_dir, auth.user_id.as_str()),
    };
    let root = join(base.as_str(), name);
    match auth.validate_path(root.as_str(), projects_dir) {
        Ok(()) => Ok(root),
        Err(e) => Err(e),
    }
}

/// The error for a project directory that already exists.
pub fn directory_exists_error(root: &str) -> (r: String)
    ensures
        r@ == "Directory already exists: '"@ + root@ + "'"@,
{
    let mut m = String::from_str("Directory already exists: '");
    m.append(root);
    m.append("'");
    m
}

/// The project to record for a directory: the database's record when there
/// is one, otherwise a new record with the given id.
pub fn project_record(existing: Option<WikiProject>, id: String, name: String, path: String) -> (r: WikiProject)
    ensures
        existing matches Some(p) ==> r == p,
        existing is None ==> r == (WikiProject { id, name, path }),
{
    match existing {
        Some(p) => p,
        None => WikiProject { id, name, path },
    }
}

/// A lower-case hexadecimal digit.
pub open spec fn is_lower_hex(c: char) -> bool {
    ('0' <= c && c <= '9') || ('a' <= c && c <= 'f')
}

/// The hyphenated text of a random (version-4, RFC 4122 variant) UUID:
/// 36 characters, hyphens at 8, 13, 18 and 23, lower-case hexadecimal
/// digits elsewhere, the version digit `4` at 14 and one of `8`, `9`, `a`,
/// `b` at 19.
pub open spec fn is_uuid_v4_text(s: Seq<char>) -> bool {
    &&& s.len() == 36
    &&& forall|i: int| 0 <= i < 36 ==> (if i == 8 || i == 13 || i == 18 || i == 23 {
        s[i] == '-'
    } else {
        is_lower_hex(#[trigger] s[i])
    })
    &&& s[14] == '4'
    &&& (s[19] == '8' || s[19] == '9' || s[19] == 'a' || s[19] == 'b')
}

/// A new random project id.
///
/// Wraps `uuid::Uuid::new_v4` and its `to_string`. The id is random; every
/// outcome is the hyphenated lower-case text of a version-4 UUID, since
/// `new_v4` sets the version bits to 4 and the variant bits to `10`.
#[verifier::external_body]
pub(crate) fn new_id() -> (r: String)
    ensures
        is_uuid_v4_text(r@),
{
    uuid::Uuid::new_v4().to_string()
}

/// The project to record for a directory: the database's record when there
/// is one, otherwise a new record with a fresh random id.
pub fn project_for_directory(existing: Option<WikiProject>, name: String, path: String) -> (r: WikiProject)
    ensures
        existing matches Some(p) ==> r == p,
        existing is None ==> r.name == name && r.path == path && is_uuid_v4_text(r.id@),
{
    match existing {
        Some(p) => p,
        None => project_record(None, new_id(), name, path),
    }
}

/// Checks a project directory opened by name (`exists`, `is_dir` and
/// `has_wiki` are what the disk reported for it, in that order of asking).
pub fn check_named_project(name: &str, exists: bool, is_dir: bool, has_wiki: bool) -> (r: Result<(), String>)
    ensures
        r is Ok <==> exists && is_dir && has_wiki,
        !exists ==> (r matches Err(e) && e@ == "Project '"@ + name@ + "' does not exist"@),
        exists && !is_dir ==> (r matches Err(e) && e@ == "'"@ + name@ + "' is not a directory"@),
        exists && is_dir && !has_wiki ==> (r matches Err(e) && e@ == "'"@ + name@
            + "' is not a valid wiki project (missing wiki folder)"@),
{
    if !exists {
        let mut m = String::from_str("Project '");
        m.append(name);
        m.append("' does not exist");
        return Err(m);
    }
    if !is_dir {
        let mut m = String::from_str("'");
        m.append(name);
        m.append("' is not a directory");
        return Err(m);
    }
    if !has_wiki {
        let mut m = String::from_str("'");
        m.append(name);
        m.append("' is not a valid wiki project (missing wiki folder)");
        return Err(m);
    }
    Ok(())
}

/// Checks a project directory opened by its full path.
pub fn check_project_path(path: &str, exists: bool, is_dir: bool, has_wiki: bool) -> (r: Result<(), String>)
    ensures
        r is Ok <==> exists && is_dir && has_wiki,
        !exists ==> (r matches Err(e) && e@ == "Path does not exist: '"@ + path@ + "'"@),
        exists && !is_dir ==> (r matches Err(e) && e@ == "Path is not a directory: '"@ + path@ + "'"@),
        exists && is_dir && !has_wiki ==> (r matches Err(e) && e@
            == "Not a valid wiki project (missing wiki folder): '"@ + path@ + "'"@),
{
    if !exists {
        let mut m = String::from_str("Path does not exist: '");
        m.append(path);
        m.append("'");
        return Err(m);
    }
    if !is_dir {
        let mut m = String::from_str("Path is not a directory: '");
        m.append(path);
        m.append("'");
        return Err(m);
    }
    if !has_wiki {
        let mut m = String::from_str("Not a valid wiki project (missing wiki folder): '");
        m.append(path);
        m.append("'");
        return Err(m);
    }
    Ok(())
}

/// Where an administrator looks for a project by name: `<d>/<name>` for
/// each user directory `d`, in the order given.
pub fn admin_candidates(user_dirs: &Vec<String>, name: &str) -> (r: Vec<String>)
    ensures
        r@.len() == user_dirs@.len(),
        forall|i: int| 0 <= i < user_dirs@.len() ==> #[trigger] r@[i]@ == path_join(user_dirs@[i]@, name@),
{
    let mut out: Vec<String> = Vec::new();
    let mut i: usize = 0;
    while i < user_dirs.len()
        invariant
            i <= user_dirs@.len(),
            out@.len() == i,
            forall|k: int| 0 <= k < i ==> #[trigger] out@[k]@ == path_join(user_dirs@[k]@, name@),
        decreases user_dirs.len() - i,
    {
        out.push(join(user_dirs[i].as_str(), name));
        i = i + 1;
    }
    out
}

/// The candidate an administrator opens: the first one that is a directory
/// holding a wiki folder (`usable[i]` says whether candidate `i` is), if any.
pub fn first_usable(usable: &Vec<bool>) -> (r: Option<usize>)
    ensures
        r matches Some(i) ==> i < usable@.len() && usable@[i as int] && forall|j: int| 0 <= j < i ==> !usable@[j],
        r is None ==> forall|j: int| 0 <= j < usable@.len() ==> !usable@[j],
{
    let mut i: usize = 0;
    while i < usable.len()
        invariant
            i <= usable@.len(),
            forall|j: int| 0 <= j < i ==> !usable@[j],
        decreases usable.len() - i,
    {
        if usable[i] {
            return Some(i);
        }
        i = i + 1;
    }
    None
}

/// The error of an administrator's search by name that found nothing.
pub fn project_not_found_error(name: &str) -> (r: String)
    ensures
        r@ == "Project '"@ + name@ + "' not found"@,
{
    let mut m = String::from_str("Project '");
    m.append(name);
    m.append("' not found");
    m
}

/// The name under which a project opened by path is recorded: the last
/// component of the path, `Unknown` when it has none.
pub fn project_name_for_path(path: &str) -> (r: String)
    ensures
        r@ == (match path_file_name(path@) {
            Some(n) => n,
            None => "Unknown"@,
        }),
{
    file_name_or(path, "Unknown")
}

/// Where a project moves when it is given to a user:
/// `<projects_dir>/<user_id>/<name>`, with the project directory's own name,
/// or `unknown` when its path has none.
pub open spec fn spec_relocated_path(projects_dir: Seq<char>, user_id: Seq<char>, old_path: Seq<char>) -> Seq<char> {
    path_join(
        path_join(projects_dir, user_id),
        match path_file_name(old_path) {
            Some(n) => n,
            None => "unknown"@,
        },
    )
}

/// Where a project moves when it is given to a user.
pub fn relocated_path(projects_dir: &str, user_id: &str, old_path: &str) -> (r: String)
    ensures
        r@ == spec_relocated_path(projects_dir@, user_id@, old_path@),
{
    let name = file_name_or(old_path, "unknown");
    let user_dir = join(projects_dir, user_id);
    join(user_dir.as_str(), name.as_str())
}

/// Whether a project directory is moved: it exists and its new path names
/// other components than the old one.
pub fn needs_move(old_exists: bool, old_path: &str, new_path: &str) -> (r: bool)
    ensures
        r == (old_exists && !paths_equal(old_path@, new_path@)),
{
    old_exists && !same_path(old_path, new_path)
}

// ---------------------------------------------------------------------------
// Giving projects to users
// ---------------------------------------------------------------------------

/// A change to the project registry.
#[derive(Debug)]
pub enum ProjectUpdate {
    /// The project with this id is now at `path`.
    SetPath { project_id: String, path: String },
    /// The project at `path` now belongs to `user_id`.
    SetOwner { path: String, user_id: String },
}

/// A registry row as (id, path, owner).
pub type RowView = (Seq<char>, Seq<char>, Option<Seq<char>>);

/// The row after one change.
pub open spec fn apply_update(row: RowView, u: ProjectUpdate) -> RowView {
    match u {
        ProjectUpdate::SetPath { project_id, path } => if project_id@ == row.0 {
            (row.0, path@, row.2)
        } else {
            row
        },
        ProjectUpdate::SetOwner { path, user_id } => if path@ == row.1 {
            (row.0, row.1, Some(user_id@))
        } else {
            row
        },
    }
}

/// The row after the changes, in order.
pub open spec fn apply_updates(row: RowView, us: Seq<ProjectUpdate>) -> RowView
    decreases us.len(),
{
    if us.len() == 0 {
        row
    } else {
        apply_update(apply_updates(row, us.drop_last()), us.last())
    }
}

proof fn lemma_apply_one(row: RowView, us: Seq<ProjectUpdate>)
    requires
        us.len() == 1,
    ensures
        apply_updates(row, us) == apply_update(row, us[0]),
{
    assert(us.drop_last() =~= Seq::<ProjectUpdate>::empty());
    assert(apply_updates(row, us.drop_last()) == row);
}

proof fn lemma_apply_two(row: RowView, us: Seq<ProjectUpdate>)
    requires
        us.len() == 2,
    ensures
        apply_updates(row, us) == apply_update(apply_update(row, us[0]), us[1]),
{
    lemma_apply_one(row, us.drop_last());
}

fn set_path_then_owner(project_id: &str, path: &str, user_id: &str) -> (r: Vec<ProjectUpdate>)
    ensures
        r@.len() == 2,
        r@[0] == (ProjectUpdate::SetPath { project_id: r@[0]->project_id, path: r@[0]->SetPath_path }),
        r@[0]->project_id@ == project_id@,
        r@[0]->SetPath_path@ == path@,
        r@[1] == (ProjectUpdate::SetOwner { path: r@[1]->SetOwner_path, user_id: r@[1]->user_id }),
        r@[1]->SetOwner_path@ == path@,
        r@[1]->user_id@ == user_id@,
{
    let mut v: Vec<ProjectUpdate> = Vec::new();
    v.push(ProjectUpdate::SetPath { project_id: String::from_str(project_id), path: String::from_str(path) });
    v.push(ProjectUpdate::SetOwner { path: String::from_str(path), user_id: String::from_str(user_id) });
    v
}

/// The registry changes after an ownerless project was (or was not) moved
/// to its new owner's directory: the new path first when it moved, then the
/// owner, so that the row ends at its actual path, owned by `user_id`.
pub fn orphan_updates(project_id: &str, old_path: &str, new_path: &str, moved: bool, user_id: &str) -> (r: Vec<
    ProjectUpdate,
>)
    ensures
        apply_updates((project_id@, old_path@, None), r@) == (
            project_id@,
            if moved { new_path@ } else { old_path@ },
            Some(user_id@),
        ),
        moved ==> r@.len() == 2,
        !moved ==> r@.len() == 1,
{
    if moved {
        let r = set_path_then_owner(project_id, new_path, user_id);
        proof {
            lemma_apply_two((project_id@, old_path@, None), r@);
        }
        r
    } else {
        let mut v: Vec<ProjectUpdate> = Vec::new();
        v.push(ProjectUpdate::SetOwner { path: String::from_str(old_path), user_id: String::from_str(user_id) });
        proof {
            lemma_apply_one((project_id@, old_path@, None), v@);
        }
        v
    }
}

/// The registry changes when a project is given to a user: the project is
/// recorded at its new path, then owned by the user, whatever owner and
/// path it had.
pub fn assign_updates(project_id: &str, new_path: &str, user_id: &str) -> (r: Vec<ProjectUpdate>)
    ensures
        r@.len() == 2,
        forall|old_path: Seq<char>, owner: Option<Seq<char>>|
            #[trigger] apply_updates((project_id@, old_path, owner), r@) == (project_id@, new_path@, Some(user_id@)),
{
    let r = set_path_then_owner(project_id, new_path, user_id);
    assert forall|old_path: Seq<char>, owner: Option<Seq<char>>|
        #[trigger] apply_updates((project_id@, old_path, owner), r@) == (project_id@, new_path@, Some(user_id@)) by {
        lemma_apply_two((project_id@, old_path, owner), r@);
    }
    r
}

/// The first step of giving a project away: the target user must exist.
pub fn assign_target_step(target: Option<User>) -> (r: Result<User, String>)
    ensures
        target matches Some(u) ==> r == Ok::<User, String>(u),
        target is None ==> (r matches Err(e) && e@ == "Target user not found"@),
{
    match target {
        Some(u) => Ok(u),
        None => Err(String::from_str("Target user not found")),
    }
}

/// Where a project given to a user moves, with the registry changes.
pub struct Relocation {
    pub project: WikiProject,
    pub new_path: String,
    pub updates: Vec<ProjectUpdate>,
}

/// The second step of giving a project away, once the target user is
/// known: the project must exist; it moves to
/// `<projects_dir>/<user id>/<name>`, and the registry records the new path
/// and then the new owner.
pub fn assign_project_step(projects_dir: &str, target: &User, project: Option<WikiProject>) -> (r: Result<
    Relocation,
    String,
>)
    ensures
        project is None ==> (r matches Err(e) && e@ == "Project not found"@),
        project matches Some(p) ==> (r matches Ok(rel) && rel.project == p && rel.new_path@ == spec_relocated_path(
            projects_dir@,
            target.id@,
            p.path@,
        ) && forall|old_path: Seq<char>, owner: Option<Seq<char>>|
            #[trigger] apply_updates((p.id@, old_path, owner), rel.updates@) == (
                p.id@,
                rel.new_path@,
                Some(target.id@),
            )),
{
    match project {
        None => Err(String::from_str("Project not found")),
        Some(p) => {
            let new_path = relocated_path(projects_dir, target.id.as_str(), p.path.as_str());
            let updates = assign_updates(p.id.as_str(), new_path.as_str(), target.id.as_str());
            Ok(Relocation { project: p, new_path, updates })
        },
    }
}

/// Every project that is created lies in its creator's own directory (or
/// was created by an administrator): no request, whatever path it asks
/// for, creates a project the creator cannot open by path. A request that
/// names no path (or a blank one) is never refused, for user ids that are not
/// empty and do not begin or end with `/`, and project names that are not
/// empty and do not begin with `/`.
pub proof fn lemma_created_project_accessible(u: AuthUser, custom: Option<String>, projects_dir: Seq<char>, name: Seq<char>)
    ensures
        spec_create_target(u, custom, projects_dir, name) matches Ok(root) ==> u.may_access(root, projects_dir),
        !u.spec_is_admin() ==> (spec_create_target(u, custom, projects_dir, name) matches Ok(root) ==> is_prefix(
            path_join(projects_dir, u.user_id@).push('/'),
            root,
        )),
        (u.user_id@.len() > 0 && u.user_id@[0] != '/' && u.user_id@.last() != '/' && name.len() > 0 && name[0] != '/'
            && (custom matches Some(p) ==> trim_ws(p@).len() == 0)) ==> spec_create_target(u, custom, projects_dir, name) is Ok,
{
    if u.user_id@.len() > 0 && u.user_id@[0] != '/' && u.user_id@.last() != '/' && name.len() > 0 && name[0] != '/'
        && (custom matches Some(p) ==> trim_ws(p@).len() == 0) {
        assert(spec_project_root(custom, projects_dir, u.user_id@, name) == spec_project_root(None, projects_dir, u.user_id@, name));
        crate::auth::lemma_own_paths_allowed(u, projects_dir, name);
    }
}

/// A project given to a user lies in that user's directory afterwards, so
/// the user may open it by path; this holds for user ids that are not empty
/// and do not begin or end with `/`, and for project directories whose name
/// (if any) does not begin with `/`.
pub proof fn lemma_relocated_project_accessible(u: AuthUser, projects_dir: Seq<char>, old_path: Seq<char>)
    requires
        u.user_id@.len() > 0,
        u.user_id@[0] != '/',
        u.user_id@.last() != '/',
        path_file_name(old_path) matches Some(n) ==> n.len() > 0 && n[0] != '/',
    ensures
        u.may_access(spec_relocated_path(projects_dir, u.user_id@, old_path), projects_dir),
{
    let name = match path_file_name(old_path) {
        Some(n) => n,
        None => "unknown"@,
    };
    if path_file_name(old_path) is None {
        reveal_strlit("unknown");
    }
    crate::auth::lemma_own_paths_allowed(u, projects_dir, name);
}

// ---------------------------------------------------------------------------
// The project list
// ---------------------------------------------------------------------------

/// The index of the last row for `path`, if any (a later row for the same
/// path replaces an earlier one when rows are indexed by path).
pub open spec fn last_row_for(rows: Seq<OwnedProject>, path: Seq<char>) -> Option<int> {
    if exists|i: int| 0 <= i < rows.len() && rows[i].project.path@ == path {
        Some(choose|i: int|
            0 <= i < rows.len() && rows[i].project.path@ == path && forall|j: int|
                i < j < rows.len() ==> rows[j].project.path@ != path)
    } else {
        None
    }
}

/// A directory found on disk, with what the database knows of it.
pub open spec fn disk_info(d: DiskProject, rows: Seq<OwnedProject>) -> ProjectInfo {
    match last_row_for(rows, d.path@) {
        Some(m) => ProjectInfo {
            id: Some(rows[m].project.id),
            name: d.name,
            path: d.path,
            has_wiki: d.has_wiki,
            last_opened_at: Some(rows[m].last_opened_at),
            owner: rows[m].owner,
        },
        None => ProjectInfo {
            id: None,
            name: d.name,
            path: d.path,
            has_wiki: d.has_wiki,
            last_opened_at: None,
            owner: None,
        },
    }
}

/// A database row for which no directory was found.
pub open spec fn row_info(row: OwnedProject) -> ProjectInfo {
    ProjectInfo {
        id: Some(row.project.id),
        name: row.project.name,
        path: row.project.path,
        has_wiki: row.has_wiki,
        last_opened_at: Some(row.last_opened_at),
        owner: row.owner,
    }
}

/// No directory found on disk has this path.
pub open spec fn unseen(disk: Seq<DiskProject>, path: Seq<char>) -> bool {
    forall|i: int| 0 <= i < disk.len() ==> disk[i].path@ != path
}

/// The entries for the database rows that no directory on disk matched, in
/// the rows' order.
pub open spec fn db_only_infos(disk: Seq<DiskProject>, rows: Seq<OwnedProject>) -> Seq<ProjectInfo>
    decreases rows.len(),
{
    if rows.len() == 0 {
        seq![]
    } else {
        let rest = db_only_infos(disk, rows.drop_last());
        if unseen(disk, rows.last().project.path@) {
            rest.push(row_info(rows.last()))
        } else {
            rest
        }
    }
}

/// The unsorted project list: every directory on disk with what the
/// database knows of it, followed, when asked, by the database rows that
/// no directory matched.
pub open spec fn unsorted_listing(
    disk: Seq<DiskProject>,
    rows: Seq<OwnedProject>,
    include_db_only: bool,
) -> Seq<ProjectInfo> {
    disk.map_values(|d: DiskProject| disk_info(d, rows)) + (if include_db_only {
        db_only_infos(disk, rows)
    } else {
        seq![]
    })
}

/// `a` sorts strictly before `b`: a project opened more recently comes
/// first, a project ever opened comes before one never opened, and projects
/// never opened are ordered by name.
pub open spec fn listed_before(a: ProjectInfo, b: ProjectInfo) -> bool {
    match (a.last_opened_at, b.last_opened_at) {
        (Some(x), Some(y)) => x > y,
        (Some(_), None) => true,
        (None, Some(_)) => false,
        (None, None) => lex_lt(a.name@, b.name@),
    }
}

/// `perm` lists every index of `items` once, in the order of a stable sort
/// by `listed_before`: each entry comes strictly before every later one, or
/// is equivalent to it and came earlier in `items`.
pub open spec fn stable_order(items: Seq<ProjectInfo>, perm: Seq<usize>) -> bool {
    &&& perm.len() == items.len()
    &&& forall|i: int| 0 <= i < perm.len() ==> perm[i] < items.len()
    &&& forall|i: int, j: int| 0 <= i < j < perm.len() ==> perm[i] != perm[j]
    &&& forall|i: int, j: int|
        #![trigger perm[i], perm[j]]
        0 <= i < j < perm.len() ==> {
            let a = items[perm[i] as int];
            let b = items[perm[j] as int];
            listed_before(a, b) || (!listed_before(b, a) && perm[i] < perm[j])
        }
}

/// `sorted` is `items` in the order of a stable sort by `listed_before`.
pub open spec fn stably_sorted(items: Seq<ProjectInfo>, sorted: Seq<ProjectInfo>) -> bool {
    exists|perm: Seq<usize>|
        stable_order(items, perm) && sorted == perm.map_values(|k: usize| items[k as int])
}

pub proof fn lemma_listed_before_irreflexive(a: ProjectInfo)
    ensures
        !listed_before(a, a),
{
    lemma_lex_irreflexive(a.name@);
}

/// `listed_before` is a strict weak order: if `a` comes before `b`, any `c`
/// comes after `a` or before `b`.
pub proof fn lemma_listed_before_weak_order(a: ProjectInfo, b: ProjectInfo, c: ProjectInfo)
    requires
        listed_before(a, b),
    ensures
        listed_before(a, c) || listed_before(c, b),
{
    match (a.last_opened_at, b.last_opened_at, c.last_opened_at) {
        (None, None, None) => {
            lemma_lex_total(a.name@, c.name@);
            lemma_lex_total(c.name@, b.name@);
            if !listed_before(a, c) && !listed_before(c, b) {
                if a.name@ == c.name@ {
                } else if c.name@ == b.name@ {
                } else {
                    lemma_lex_transitive(c.name@, a.name@, b.name@);
                    lemma_lex_transitive(b.name@, c.name@, a.name@);
                    lemma_lex_irreflexive(a.name@);
                }
            }
        },
        _ => {},
    }
}

pub proof fn lemma_listed_before_transitive(a: ProjectInfo, b: ProjectInfo, c: ProjectInfo)
    requires
        listed_before(a, b),
        listed_before(b, c),
    ensures
        listed_before(a, c),
{
    match (a.last_opened_at, b.last_opened_at, c.last_opened_at) {
        (None, None, None) => {
            lemma_lex_transitive(a.name@, b.name@, c.name@);
        },
        _ => {},
    }
}

/// `listed_before` is asymmetric.
pub proof fn lemma_listed_before_asymmetric(a: ProjectInfo, b: ProjectInfo)
    requires
        listed_before(a, b),
    ensures
        !listed_before(b, a),
{
    if listed_before(b, a) {
        lemma_listed_before_transitive(a, b, a);
        lemma_listed_before_irreflexive(a);
    }
}

/// Distinct indices below `n`, `n` of them, are all the indices below `n`.
proof fn lemma_covers_all(q: Seq<usize>, n: nat, v: usize)
    requires
        q.len() == n,
        forall|i: int| 0 <= i < q.len() ==> q[i] < n,
        forall|i: int, j: int| 0 <= i < j < q.len() ==> q[i] != q[j],
        v < n,
    ensures
        exists|j: int| 0 <= j < q.len() && q[j] == v,
{
    let qi = q.map_values(|x: usize| x as int);
    assert(qi.no_duplicates()) by {
        assert forall|i: int, j: int| 0 <= i < qi.len() && 0 <= j < qi.len() && i != j implies qi[i] != qi[j] by {
            if i < j {
                assert(q[i] != q[j]);
            } else {
                assert(q[j] != q[i]);
            }
        }
    }
    qi.unique_seq_to_set();
    vstd::set_lib::lemma_int_range(0, n as int);
    let range = vstd::set_lib::set_int_range(0, n as int);
    assert(qi.to_set().subset_of(range)) by {
        assert forall|x: int| qi.to_set().contains(x) implies range.contains(x) by {
            let k = choose|k: int| 0 <= k < qi.len() && qi[k] == x;
            assert(q[k] < n);
        }
    }
    assert(qi.to_set().finite()) by {
        broadcast use vstd::seq_lib::seq_to_set_is_finite;
    }
    vstd::set_lib::lemma_subset_equality(qi.to_set(), range);
    assert(range.contains(v as int));
    assert(qi.to_set().contains(v as int));
    let k = choose|k: int| 0 <= k < qi.len() && qi[k] == v as int;
    assert(q[k] == v);
}

proof fn lemma_stable_prefix_equal(items: Seq<ProjectInfo>, p: Seq<usize>, q: Seq<usize>, i: int)
    requires
        stable_order(items, p),
        stable_order(items, q),
        0 <= i < p.len(),
    ensures
        forall|j: int| 0 <= j <= i ==> p[j] == q[j],
    decreases i,
{
    if i > 0 {
        lemma_stable_prefix_equal(items, p, q, i - 1);
    }
    if p[i] != q[i] {
        let n = items.len();
        let a = p[i];
        let b = q[i];
        lemma_covers_all(q, n, a);
        lemma_covers_all(p, n, b);
        let j = choose|j: int| 0 <= j < q.len() && q[j] == a;
        let k = choose|k: int| 0 <= k < p.len() && p[k] == b;
        if j < i {
            assert(p[j] == q[j]);
        }
        if k < i {
            assert(p[k] == q[k]);
        }
        assert(j > i && k > i);
        let ia = items[a as int];
        let ib = items[b as int];
        // In q, b comes before a; in p, a comes before b.
        assert(listed_before(ib, ia) || (!listed_before(ia, ib) && b < a));
        assert(listed_before(ia, ib) || (!listed_before(ib, ia) && a < b));
        if listed_before(ib, ia) {
            lemma_listed_before_asymmetric(ib, ia);
        }
    }
}

/// The stable order of a list is unique, so the sorted list is determined
/// by the unsorted one.
pub proof fn lemma_stable_order_unique(items: Seq<ProjectInfo>, p: Seq<usize>, q: Seq<usize>)
    requires
        stable_order(items, p),
        stable_order(items, q),
    ensures
        p == q,
{
    if p.len() > 0 {
        lemma_stable_prefix_equal(items, p, q, p.len() - 1);
    }
    assert(p =~= q);
}

/// The project list has exactly one stably sorted order.
pub proof fn lemma_stably_sorted_unique(items: Seq<ProjectInfo>, s1: Seq<ProjectInfo>, s2: Seq<ProjectInfo>)
    requires
        stably_sorted(items, s1),
        stably_sorted(items, s2),
    ensures
        s1 == s2,
{
    let p = choose|perm: Seq<usize>| stable_order(items, perm) && s1 == perm.map_values(|k: usize| items[k as int]);
    let q = choose|perm: Seq<usize>| stable_order(items, perm) && s2 == perm.map_values(|k: usize| items[k as int]);
    lemma_stable_order_unique(items, p, q);
}

/// `e` is the entry of the directory `d`: its name, path and wiki flag, and
/// the id, last-opened time and owner of the last database row with `d`'s
/// path, or none of these when no row has it.
pub open spec fn entry_for_dir(e: ProjectInfo, d: DiskProject, rows: Seq<OwnedProject>) -> bool {
    &&& e.name == d.name
    &&& e.path == d.path
    &&& e.has_wiki == d.has_wiki
    &&& forall|m: int|
        #![trigger rows[m]]
        0 <= m < rows.len() && rows[m].project.path@ == d.path@ && (forall|j: int|
            m < j < rows.len() ==> rows[j].project.path@ != d.path@) ==> e.id == Some(rows[m].project.id)
            && e.last_opened_at == Some(rows[m].last_opened_at) && e.owner == rows[m].owner
    &&& (forall|m: int| 0 <= m < rows.len() ==> rows[m].project.path@ != d.path@) ==> e.id is None
        && e.last_opened_at is None && e.owner is None
}

/// Some entry of `sorted` is the entry of the directory `d`.
pub open spec fn listed_for_dir(sorted: Seq<ProjectInfo>, d: DiskProject, rows: Seq<OwnedProject>) -> bool {
    exists|k: int| 0 <= k < sorted.len() && #[trigger] entry_for_dir(sorted[k], d, rows)
}

proof fn lemma_disk_info_entry(d: DiskProject, rows: Seq<OwnedProject>)
    ensures
        entry_for_dir(disk_info(d, rows), d, rows),
{
    assert forall|m: int|
        #![trigger rows[m]]
        0 <= m < rows.len() && rows[m].project.path@ == d.path@ && (forall|j: int|
            m < j < rows.len() ==> rows[j].project.path@ != d.path@) implies last_row_for(rows, d.path@) == Some(m) by {
        let c = choose|c: int|
            0 <= c < rows.len() && rows[c].project.path@ == d.path@ && forall|j: int|
                c < j < rows.len() ==> rows[j].project.path@ != d.path@;
        if c < m {
            assert(rows[m].project.path@ != d.path@);
        }
        if m < c {
            assert(rows[c].project.path@ != d.path@);
        }
    }
}

proof fn lemma_sorted_keeps(items: Seq<ProjectInfo>, sorted: Seq<ProjectInfo>, i: int) -> (k: int)
    requires
        stably_sorted(items, sorted),
        0 <= i < items.len(),
        i <= usize::MAX,
    ensures
        0 <= k < sorted.len(),
        sorted[k] == items[i],
{
    let perm = choose|perm: Seq<usize>| stable_order(items, perm) && sorted == perm.map_values(|k: usize| items[k as int]);
    lemma_covers_all(perm, items.len(), i as usize);
    let k = choose|k: int| 0 <= k < perm.len() && perm[k] == i as usize;
    assert(sorted[k] == items[perm[k] as int]);
    k
}

/// Every directory found on disk appears in the sorted list, with the id,
/// last-opened time and owner of the last database row for its path (none
/// when no row has its path).
pub proof fn lemma_listing_keeps_row_data(
    disk: Seq<DiskProject>,
    rows: Seq<OwnedProject>,
    include_db_only: bool,
    sorted: Seq<ProjectInfo>,
)
    requires
        stably_sorted(unsorted_listing(disk, rows, include_db_only), sorted),
        disk.len() <= usize::MAX,
    ensures
        forall|i: int| 0 <= i < disk.len() ==> #[trigger] listed_for_dir(sorted, disk[i], rows),
{
    let items = unsorted_listing(disk, rows, include_db_only);
    assert forall|i: int| 0 <= i < disk.len() implies #[trigger] listed_for_dir(sorted, disk[i], rows) by {
        assert(items[i] == disk_info(disk[i], rows));
        lemma_disk_info_entry(disk[i], rows);
        let k = lemma_sorted_keeps(items, sorted, i);
        assert(entry_for_dir(sorted[k], disk[i], rows));
    }
}

/// Whether `a` sorts strictly before `b`.
pub fn is_listed_before(a: &ProjectInfo, b: &ProjectInfo) -> (r: bool)
    ensures
        r == listed_before(*a, *b),
{
    match (a.last_opened_at, b.last_opened_at) {
        (Some(x), Some(y)) => x > y,
        (Some(_), None) => true,
        (None, Some(_)) => false,
        (None, None) => lex_less(a.name.as_str(), b.name.as_str()),
    }
}

fn copy_opt(s: &Option<String>) -> (r: Option<String>)
    ensures
        r == *s,
{
    match s {
        Some(x) => Some(x.clone()),
        None => None,
    }
}

fn copy_info(x: &ProjectInfo) -> (r: ProjectInfo)
    ensures
        r == *x,
{
    ProjectInfo {
        id: copy_opt(&x.id),
        name: x.name.clone(),
        path: x.path.clone(),
        has_wiki: x.has_wiki,
        last_opened_at: x.last_opened_at,
        owner: copy_opt(&x.owner),
    }
}

/// `items` in the order of a stable sort by `listed_before` (what
/// `sort_by` with the listing's comparator produces).
pub fn sort_projects(items: &Vec<ProjectInfo>) -> (r: Vec<ProjectInfo>)
    ensures
        stably_sorted(items@, r@),
{
    let n = items.len();
    let mut idx: Vec<usize> = Vec::new();
    let mut k: usize = 0;
    while k < n
        invariant
            k <= n,
            n == items@.len(),
            idx@.len() == k,
            forall|i: int| 0 <= i < k ==> idx@[i] < k,
            forall|i: int, j: int| 0 <= i < j < k ==> idx@[i] != idx@[j],
            forall|i: int, j: int|
                #![trigger idx@[i], idx@[j]]
                0 <= i < j < k ==> {
                    let a = items@[idx@[i] as int];
                    let b = items@[idx@[j] as int];
                    listed_before(a, b) || (!listed_before(b, a) && idx@[i] < idx@[j])
                },
        decreases n - k,
    {
        let mut pos: usize = k;
        while pos > 0 && is_listed_before(&items[k], &items[idx[pos - 1]])
            invariant
                pos <= k,
                k < n,
                n == items@.len(),
                idx@.len() == k,
                forall|i: int| 0 <= i < k ==> idx@[i] < k,
                forall|q: int| pos <= q < k ==> listed_before(items@[k as int], items@[idx@[q] as int]),
            decreases pos,
        {
            pos = pos - 1;
        }
        let ghost old_idx = idx@;
        proof {
            // Nothing before `pos` comes after the new entry.
            assert forall|q: int| 0 <= q < pos implies !listed_before(items@[k as int], items@[old_idx[q] as int]) by {
                if pos > 0 {
                    let last = items@[old_idx[pos - 1] as int];
                    assert(!listed_before(items@[k as int], last));
                    if q < pos - 1 && listed_before(items@[k as int], items@[old_idx[q] as int]) {
                        let a = items@[old_idx[q] as int];
                        if listed_before(a, last) {
                            lemma_listed_before_transitive(items@[k as int], a, last);
                        } else {
                            lemma_listed_before_weak_order(items@[k as int], a, last);
                        }
                    }
                }
            }
        }
        idx.insert(pos, k);
        proof {
            old_idx.insert_ensures(pos as int, k);
            assert forall|i: int, j: int|
                #![trigger idx@[i], idx@[j]]
                0 <= i < j < k + 1 implies {
                let a = items@[idx@[i] as int];
                let b = items@[idx@[j] as int];
                listed_before(a, b) || (!listed_before(b, a) && idx@[i] < idx@[j])
            } by {
                if j == pos {
                    let a = items@[idx@[i] as int];
                    assert(idx@[i] == old_idx[i]);
                    if listed_before(a, items@[k as int]) {
                    } else {
                        assert(!listed_before(items@[k as int], a));
                    }
                } else if i == pos {
                    assert(idx@[j] == old_idx[j - 1]);
                    let b = items@[idx@[j] as int];
                    assert(listed_before(items@[k as int], b));
                } else {
                    let oi = if i < pos { i } else { i - 1 };
                    let oj = if j < pos { j } else { j - 1 };
                    assert(idx@[i] == old_idx[oi]);
                    assert(idx@[j] == old_idx[oj]);
                }
            }
        }
        k = k + 1;
    }
    let mut out: Vec<ProjectInfo> = Vec::new();
    let mut t: usize = 0;
    while t < n
        invariant
            t <= n,
            n == items@.len(),
            idx@.len() == n,
            forall|i: int| 0 <= i < n ==> idx@[i] < n,
            out@ == idx@.take(t as int).map_values(|k: usize| items@[k as int]),
        decreases n - t,
    {
        let c = copy_info(&items[idx[t]]);
        out.push(c);
        t = t + 1;
        assert(out@ =~= idx@.take(t as int).map_values(|k: usize| items@[k as int]));
    }
    assert(idx@.take(n as int) =~= idx@);
    assert(stable_order(items@, idx@));
    out
}

fn copy_owned_info(d: &DiskProject, rows: &Vec<OwnedProject>) -> (r: ProjectInfo)
    ensures
        r == disk_info(*d, rows@),
{
    let mut m: usize = rows.len();
    let mut found = false;
    while m > 0 && !found
        invariant
            m <= rows.len(),
            found ==> m > 0 && rows@[m - 1].project.path@ == d.path@,
            forall|j: int| m <= j < rows.len() ==> rows@[j].project.path@ != d.path@,
        decreases m, if found { 0int } else { 1int },
    {
        if str_eq(rows[m - 1].project.path.as_str(), d.path.as_str()) {
            found = true;
        } else {
            m = m - 1;
        }
    }
    if found {
        let i = m - 1;
        let ghost rs = rows@;
        proof {
            let w = choose|w: int|
                0 <= w < rs.len() && rs[w].project.path@ == d.path@ && forall|j: int|
                    w < j < rs.len() ==> rs[j].project.path@ != d.path@;
            assert(0 <= w < rs.len() && rs[w].project.path@ == d.path@);
            if w < i {
                assert(rs[i as int].project.path@ != d.path@);
            }
            if i < w {
                assert(rs[w].project.path@ != d.path@);
            }
            assert(last_row_for(rs, d.path@) == Some(i as int));
        }
        let row = &rows[i];
        ProjectInfo {
            id: Some(row.project.id.clone()),
            name: d.name.clone(),
            path: d.path.clone(),
            has_wiki: d.has_wiki,
            last_opened_at: Some(row.last_opened_at),
            owner: copy_opt(&row.owner),
        }
    } else {
        assert(last_row_for(rows@, d.path@) is None);
        ProjectInfo {
            id: None,
            name: d.name.clone(),
            path: d.path.clone(),
            has_wiki: d.has_wiki,
            last_opened_at: None,
            owner: None,
        }
    }
}

/// For each database row, whether no directory found on disk has its path.
pub fn unseen_rows(disk: &Vec<DiskProject>, rows: &Vec<OwnedProject>) -> (r: Vec<bool>)
    ensures
        r@.len() == rows@.len(),
        forall|j: int| 0 <= j < rows@.len() ==> r@[j] == unseen(disk@, rows@[j].project.path@),
{
    let mut out: Vec<bool> = Vec::new();
    let mut j: usize = 0;
    while j < rows.len()
        invariant
            j <= rows.len(),
            out@.len() == j,
            forall|q: int| 0 <= q < j ==> out@[q] == unseen(disk@, rows@[q].project.path@),
        decreases rows.len() - j,
    {
        let mut i: usize = 0;
        let mut hit = false;
        while i < disk.len()
            invariant
                i <= disk.len(),
                j < rows.len(),
                !hit ==> forall|q: int| 0 <= q < i ==> disk@[q].path@ != rows@[j as int].project.path@,
                hit ==> !unseen(disk@, rows@[j as int].project.path@),
            decreases disk.len() - i,
        {
            if str_eq(disk[i].path.as_str(), rows[j].project.path.as_str()) {
                hit = true;
            }
            i = i + 1;
        }
        out.push(!hit);
        j = j + 1;
    }
    out
}

/// The project list, most recent first: the directories found on disk with
/// what the database knows of them, followed, when `include_db_only` is set,
/// by the database rows that no directory matched, all stably sorted.
pub fn project_listing(disk: &Vec<DiskProject>, rows: &Vec<OwnedProject>, include_db_only: bool) -> (r: Vec<
    ProjectInfo,
>)
    ensures
        stably_sorted(unsorted_listing(disk@, rows@, include_db_only), r@),
{
    let mut items: Vec<ProjectInfo> = Vec::new();
    let mut i: usize = 0;
    while i < disk.len()
        invariant
            i <= disk.len(),
            items@ == disk@.take(i as int).map_values(|d: DiskProject| disk_info(d, rows@)),
        decreases disk.len() - i,
    {
        items.push(copy_owned_info(&disk[i], rows));
        i = i + 1;
        assert(items@ =~= disk@.take(i as int).map_values(|d: DiskProject| disk_info(d, rows@)));
    }
    assert(disk@.take(disk@.len() as int) =~= disk@);
    let ghost disk_part = items@;
    if include_db_only {
        let flags = unseen_rows(disk, rows);
        let mut j: usize = 0;
        while j < rows.len()
            invariant
                j <= rows.len(),
                flags@.len() == rows@.len(),
                forall|q: int| 0 <= q < rows@.len() ==> flags@[q] == unseen(disk@, rows@[q].project.path@),
                items@ == disk_part + db_only_infos(disk@, rows@.take(j as int)),
            decreases rows.len() - j,
        {
            assert(rows@.take(j + 1).drop_last() =~= rows@.take(j as int));
            if flags[j] {
                let row = &rows[j];
                items.push(
                    ProjectInfo {
                        id: Some(row.project.id.clone()),
                        name: row.project.name.clone(),
                        path: row.project.path.clone(),
                        has_wiki: row.has_wiki,
                        last_opened_at: Some(row.last_opened_at),
                        owner: copy_opt(&row.owner),
                    },
                );
            }
            j = j + 1;
            assert(items@ =~= disk_part + db_only_infos(disk@, rows@.take(j as int)));
        }
        assert(rows@.take(rows@.len() as int) =~= rows@);
    } else {
        assert(items@ =~= unsorted_listing(disk@, rows@, include_db_only));
    }
    sort_projects(&items)
}

} // verus!
