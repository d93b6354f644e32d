//! Users, roles and the access rule for project paths.
use vstd::prelude::*;
use crate::paths::{join, path_join};
use crate::text::{is_prefix, starts_with, str_eq};

verus! {

/// The role of an administrator.
pub const ROLE_ADMIN: &'static str = "admin";

/// The role of an ordinary user.
pub const ROLE_USER: &'static str = "user";

/// The user id (and user name) of the service identity behind the legacy
/// server token.
pub const SERVICE_USER_ID: &'static str = "service";

/// A user record as the database stores it (without its password hash).
#[derive(Debug, Clone)]
pub struct User {
    pub id: String,
    pub username: String,
    pub role: String,
    pub created_at: i64,
}

/// The body of a login request.
#[derive(Debug)]
pub struct LoginRequest {
    pub username: String,
    pub password: String,
}

/// What a successful login returns.
#[derive(Debug)]
pub struct TokenResponse {
    pub token: String,
    pub user: User,
}

/// The authenticated identity of a request.
#[derive(Debug, Clone)]
pub struct AuthUser {
    pub user_id: String,
    pub username: String,
    pub role: String,
}

/// `path` starts with `dir` followed by a separator, so it lies below `dir`.
pub open spec fn below_dir(path: Seq<char>, dir: Seq<char>) -> bool {
    is_prefix(dir.push('/'), path)
}

impl AuthUser {
    /// The identity is an administrator: its role is `admin`, or it is the
    /// service identity.
    pub open spec fn spec_is_admin(&self) -> bool {
        self.role@ == ROLE_ADMIN@ || self.user_id@ == SERVICE_USER_ID@
    }

    /// The directory that holds the user's projects.
    pub open spec fn home_under(&self, projects_dir: Seq<char>) -> Seq<char> {
        path_join(projects_dir, self.user_id@)
    }

    /// The identity may use `path`: it is an administrator, or the path
    /// starts with `<projects_dir>/<user_id>/`.
    pub open spec fn may_access(&self, path: Seq<char>, projects_dir: Seq<char>) -> bool {
        self.spec_is_admin() || below_dir(path, self.home_under(projects_dir))
    }

    /// The service administrator used for the legacy server token.
    pub fn service_admin() -> (r: Self)
        ensures
            r.user_id@ == SERVICE_USER_ID@,
            r.username@ == SERVICE_USER_ID@,
            r.role@ == ROLE_ADMIN@,
            r.spec_is_admin(),
    {
        AuthUser {
            user_id: String::from_str(SERVICE_USER_ID),
            username: String::from_str(SERVICE_USER_ID),
            role: String::from_str(ROLE_ADMIN),
        }
    }

    /// The identity named by the claims of a token.
    pub fn from_claims(user_id: String, username: String, role: String) -> (r: Self)
        ensures
            r.user_id == user_id,
            r.username == username,
            r.role == role,
    {
        AuthUser { user_id, username, role }
    }

    /// Whether the identity is an administrator.
    pub fn is_admin(&self) -> (r: bool)
        ensures
            r == self.spec_is_admin(),
    {
        str_eq(self.role.as_str(), ROLE_ADMIN) || str_eq(self.user_id.as_str(), SERVICE_USER_ID)
    }

    /// Checks that `path` starts with `<projects_dir>/<user_id>/`;
    /// administrators may use any path.
    pub fn validate_path(&self, path: &str, projects_dir: &str) -> (r: Result<(), String>)
        ensures
            r is Ok <==> self.may_access(path@, projects_dir@),
            r matches Err(e) ==> e@ == "Access denied: path '"@ + path@
                + "' is outside your project directory"@,
    {
        if self.is_admin() {
            return Ok(());
        }
        let user_prefix = join(projects_dir, self.user_id.as_str());
        let mut prefix_with_sep = user_prefix.clone();
        prefix_with_sep.append("/");
        proof {
            reveal_strlit("/");
        }
        assert(prefix_with_sep@ =~= user_prefix@.push('/'));
        if !starts_with(path, prefix_with_sep.as_str()) {
            let mut msg = String::from_str("Access denied: path '");
            msg.append(path);
            msg.append("' is outside your project directory");
            return Err(msg);
        }
        Ok(())
    }
}

/// A non-administrator never reaches into another user's project directory:
/// for two users whose ids differ, are not empty and hold no `/`, no path is
/// open to both.
pub proof fn lemma_user_directories_disjoint(
    a: AuthUser,
    b: AuthUser,
    path: Seq<char>,
    projects_dir: Seq<char>,
)
    requires
        !a.spec_is_admin(),
        !b.spec_is_admin(),
        a.user_id@ != b.user_id@,
        a.user_id@.len() > 0,
        b.user_id@.len() > 0,
        forall|i: int| 0 <= i < a.user_id@.len() ==> a.user_id@[i] != '/',
        forall|i: int| 0 <= i < b.user_id@.len() ==> b.user_id@[i] != '/',
    ensures
        !(a.may_access(path, projects_dir) && b.may_access(path, projects_dir)),
{
    let ua = a.user_id@;
    let ub = b.user_id@;
    assert(ua[0] != '/');
    assert(ub[0] != '/');
    let base = if projects_dir.len() == 0 || projects_dir.last() == '/' {
        projects_dir
    } else {
        projects_dir + seq!['/']
    };
    let pa = a.home_under(projects_dir);
    let pb = b.home_under(projects_dir);
    assert(pa =~= base + ua);
    assert(pb =~= base + ub);
    if a.may_access(path, projects_dir) && b.may_access(path, projects_dir) {
        // Both prefixes, extended by '/', agree on the
        // characters after `base`; the first difference of the ids, or the
        // end of the shorter id, contradicts one of them.
        let n: int = base.len() as int;
        assert(path.len() >= n + ua.len() && path.len() >= n + ub.len());
        assert forall|i: int| 0 <= i < ua.len() implies path[n + i] == ua[i] by {
            assert(path.subrange(0, pa.len() + 1 as int) == pa.push('/'));
            assert(path[n + i] == path.subrange(0, pa.len() + 1 as int)[n + i]);
        }
        assert forall|i: int| 0 <= i < ub.len() implies path[n + i] == ub[i] by {
            assert(path.subrange(0, pb.len() + 1 as int) == pb.push('/'));
            assert(path[n + i] == path.subrange(0, pb.len() + 1 as int)[n + i]);
        }
        if ua.len() == ub.len() {
            assert(ua =~= ub);
        } else if ua.len() < ub.len() {
            // path[n + |ua|] is '/' or past the end, but it is ub[|ua|].
            let k: int = n + ua.len();
            assert(path[k] == ub[ua.len() as int]);
            assert(path.subrange(0, pa.len() + 1 as int) == pa.push('/'));
            assert(path[k] == path.subrange(0, pa.len() + 1 as int)[k]);
            assert(path[k] == '/');
        } else {
            let k: int = n + ub.len();
            assert(path[k] == ua[ub.len() as int]);
            assert(path.subrange(0, pb.len() + 1 as int) == pb.push('/'));
            assert(path[k] == path.subrange(0, pb.len() + 1 as int)[k]);
            assert(path[k] == '/');
        }
    }
}

/// Every path below a user's own project directory is open to that user,
/// when the user id is not empty and does not begin or end with `/`.
pub proof fn lemma_own_paths_allowed(u: AuthUser, projects_dir: Seq<char>, rel: Seq<char>)
    requires
        u.user_id@.len() > 0,
        u.user_id@[0] != '/',
        u.user_id@.last() != '/',
        rel.len() > 0,
        rel[0] != '/',
    ensures
        u.may_access(path_join(u.home_under(projects_dir), rel), projects_dir),
{
    let home = u.home_under(projects_dir);
    assert(home.len() > 0 && home.last() == u.user_id@.last());
    let p = path_join(home, rel);
    assert(p =~= home + seq!['/'] + rel);
    assert(p.subrange(0, home.push('/').len() as int) =~= home.push('/'));
}

} // verus!
