//! The rules of user administration: who may manage users, which roles
//! exist, that the last administrator stays, and how configured users are
//! imported.
use vstd::prelude::*;
use crate::auth::{AuthUser, User, ROLE_ADMIN, ROLE_USER};
use crate::text::{first_segment, first_segment_str, is_blank, str_eq};

verus! {

/// A user listed in the configuration file.
#[derive(Debug, Clone)]
pub struct UserConfig {
    pub username: String,
    pub password: String,
    pub password_hash: String,
    pub role: String,
}

/// The body of a request that creates a user.
#[derive(Debug)]
pub struct CreateUserBody {
    pub username: String,
    pub password: String,
    pub role: String,
}

/// The body of a request that changes a user's password and/or role.
#[derive(Debug)]
pub struct UpdateUserBody {
    pub username: String,
    pub password: Option<String>,
    pub role: Option<String>,
}

/// The body of a request that deletes a user.
#[derive(Debug)]
pub struct DeleteUserBody {
    pub username: String,
}

/// The refusal given to a non-administrator.
pub open spec fn admin_required_msg() -> Seq<char> {
    "Admin privileges required"@
}

/// A role that exists: `admin` or `user`.
pub open spec fn is_known_role(role: Seq<char>) -> bool {
    role == ROLE_ADMIN@ || role == ROLE_USER@
}

/// Only administrators may go on.
pub fn require_admin(auth: &AuthUser) -> (r: Result<(), String>)
    ensures
        r is Ok <==> auth.spec_is_admin(),
        r matches Err(e) ==> e@ == admin_required_msg(),
{
    if auth.is_admin() {
        Ok(())
    } else {
        Err(String::from_str("Admin privileges required"))
    }
}

/// Only the roles `admin` and `user` are accepted.
pub fn validate_role(role: &str) -> (r: Result<(), String>)
    ensures
        r is Ok <==> is_known_role(role@),
        r matches Err(e) ==> e@ == "Invalid role '"@ + role@ + "'. Must be 'admin' or 'user'."@,
{
    if str_eq(role, ROLE_ADMIN) || str_eq(role, ROLE_USER) {
        Ok(())
    } else {
        let mut m = String::from_str("Invalid role '");
        m.append(role);
        m.append("'. Must be 'admin' or 'user'.");
        Err(m)
    }
}

/// Checks a request to create a user before the database is asked whether
/// the name is taken: the caller is an administrator and the role exists.
pub fn check_create_user(auth: &AuthUser, body: &CreateUserBody) -> (r: Result<(), String>)
    ensures
        r is Ok <==> auth.spec_is_admin() && is_known_role(body.role@),
        !auth.spec_is_admin() ==> (r matches Err(e) && e@ == admin_required_msg()),
        auth.spec_is_admin() && !is_known_role(body.role@) ==> (r matches Err(e) && e@
            == "Invalid role '"@ + body.role@ + "'. Must be 'admin' or 'user'."@),
{
    require_admin(auth)?;
    validate_role(body.role.as_str())
}

/// The refusal of a user name that is already taken.
pub fn user_exists_error(username: &str) -> (r: String)
    ensures
        r@ == "User '"@ + username@ + "' already exists"@,
{
    let mut m = String::from_str("User '");
    m.append(username);
    m.append("' already exists");
    m
}

/// The refusal of a user name that is unknown.
pub fn user_not_found_error(username: &str) -> (r: String)
    ensures
        r@ == "User '"@ + username@ + "' not found"@,
{
    let mut m = String::from_str("User '");
    m.append(username);
    m.append("' not found");
    m
}

/// The requested role turns an administrator into an ordinary user.
pub open spec fn demotes_admin(existing_role: Seq<char>, requested: Option<String>) -> bool {
    requested matches Some(r) && existing_role == ROLE_ADMIN@ && r@ == ROLE_USER@
}

/// Checks the role of an update request against the existing user: an
/// unknown role is refused; otherwise the result says whether the number of
/// administrators must be checked because an administrator is demoted.
pub fn check_role_change(existing: &User, requested: &Option<String>) -> (r: Result<bool, String>)
    ensures
        r is Err <==> (requested matches Some(q) && !is_known_role(q@)),
        r matches Err(e) ==> (requested matches Some(q) && e@ == "Invalid role '"@ + q@
            + "'. Must be 'admin' or 'user'."@),
        r matches Ok(b) ==> b == demotes_admin(existing.role@, *requested),
        r matches Ok(true) ==> existing.role@ == "admin"@ && (requested matches Some(q) && q@ == "user"@),
{
    match requested {
        Some(role) => {
            validate_role(role.as_str())?;
            Ok(str_eq(existing.role.as_str(), ROLE_ADMIN) && str_eq(role.as_str(), ROLE_USER))
        },
        None => Ok(false),
    }
}

/// What an administrator's removal is called in its refusal.
pub enum AdminRemoval {
    /// The administrator would be demoted to an ordinary user.
    Demote,
    /// The administrator would be deleted.
    Delete,
}

/// The last administrator is never removed: with at most one administrator
/// left the removal is refused.
pub fn last_admin_guard(admin_count: i64, removal: AdminRemoval) -> (r: Result<(), String>)
    ensures
        r is Ok <==> admin_count > 1,
        r matches Err(e) ==> e@ == (match removal {
            AdminRemoval::Demote => "Cannot remove the last admin"@,
            AdminRemoval::Delete => "Cannot delete the last admin"@,
        }),
{
    if admin_count <= 1 {
        match removal {
            AdminRemoval::Demote => Err(String::from_str("Cannot remove the last admin")),
            AdminRemoval::Delete => Err(String::from_str("Cannot delete the last admin")),
        }
    } else {
        Ok(())
    }
}

/// The user after an update: the requested role if any, the rest unchanged.
pub fn updated_user(existing: User, requested: &Option<String>) -> (r: User)
    ensures
        r.id == existing.id,
        r.username == existing.username,
        r.created_at == existing.created_at,
        r.role == (match *requested {
            Some(q) => q,
            None => existing.role,
        }),
{
    match requested {
        Some(q) => User { role: q.clone(), ..existing },
        None => existing,
    }
}

/// The statement that updates the fields given (a new password hash, a new
/// role), or none when neither is given.
pub fn user_update_statement(has_hash: bool, has_role: bool) -> (r: Option<String>)
    ensures
        has_hash && has_role ==> (r matches Some(s) && s@ == "UPDATE users SET password_hash = ?, role = ? WHERE username = ?"@),
        has_hash && !has_role ==> (r matches Some(s) && s@ == "UPDATE users SET password_hash = ? WHERE username = ?"@),
        !has_hash && has_role ==> (r matches Some(s) && s@ == "UPDATE users SET role = ? WHERE username = ?"@),
        !has_hash && !has_role ==> r is None,
{
    if has_hash && has_role {
        Some(String::from_str("UPDATE users SET password_hash = ?, role = ? WHERE username = ?"))
    } else if has_hash {
        Some(String::from_str("UPDATE users SET password_hash = ? WHERE username = ?"))
    } else if has_role {
        Some(String::from_str("UPDATE users SET role = ? WHERE username = ?"))
    } else {
        None
    }
}

/// Checks a request to delete a user before the database is asked: the
/// caller is an administrator and is not deleting itself.
pub fn check_delete_user(auth: &AuthUser, username: &str) -> (r: Result<(), String>)
    ensures
        r is Ok <==> auth.spec_is_admin() && auth.username@ != username@,
        !auth.spec_is_admin() ==> (r matches Err(e) && e@ == admin_required_msg()),
        auth.spec_is_admin() && auth.username@ == username@ ==> (r matches Err(e) && e@
            == "Cannot delete yourself"@),
{
    require_admin(auth)?;
    if str_eq(auth.username.as_str(), username) {
        return Err(String::from_str("Cannot delete yourself"));
    }
    Ok(())
}

/// Whether deleting this user needs the number of administrators checked.
pub fn is_admin_user(user: &User) -> (r: bool)
    ensures
        r == (user.role@ == ROLE_ADMIN@),
{
    str_eq(user.role.as_str(), ROLE_ADMIN)
}

// ---------------------------------------------------------------------------
// Importing configured users
// ---------------------------------------------------------------------------

/// Where a configured user's password hash comes from.
#[derive(Debug)]
pub enum PasswordSource {
    /// The configured hash, used as it is.
    Hash(String),
    /// The configured password, to be hashed.
    Plain(String),
    /// Neither is set: the user is skipped.
    Missing,
}

/// The configured hash when set, else the configured password when set,
/// else nothing.
pub fn password_source(uc: &UserConfig) -> (r: PasswordSource)
    ensures
        uc.password_hash@.len() > 0 ==> r == PasswordSource::Hash(uc.password_hash),
        uc.password_hash@.len() == 0 && uc.password@.len() > 0 ==> r == PasswordSource::Plain(uc.password),
        uc.password_hash@.len() == 0 && uc.password@.len() == 0 ==> r is Missing,
{
    if uc.password_hash.as_str().unicode_len() > 0 {
        PasswordSource::Hash(uc.password_hash.clone())
    } else if uc.password.as_str().unicode_len() > 0 {
        PasswordSource::Plain(uc.password.clone())
    } else {
        PasswordSource::Missing
    }
}

/// The index of the first configured user with the `admin` role.
pub fn first_config_admin(users: &Vec<UserConfig>) -> (r: Option<usize>)
    ensures
        r matches Some(i) ==> i < users@.len() && users@[i as int].role@ == ROLE_ADMIN@ && forall|j: int|
            0 <= j < i ==> users@[j].role@ != ROLE_ADMIN@,
        r is None ==> forall|j: int| 0 <= j < users@.len() ==> users@[j].role@ != ROLE_ADMIN@,
{
    let mut i: usize = 0;
    while i < users.len()
        invariant
            i <= users.len(),
            forall|j: int| 0 <= j < i ==> users@[j].role@ != ROLE_ADMIN@,
        decreases users.len() - i,
    {
        if str_eq(users[i].role.as_str(), ROLE_ADMIN) {
            return Some(i);
        }
        i = i + 1;
    }
    None
}

/// Which user receives the projects that have no owner.
#[derive(Debug)]
pub enum AdminChoice {
    /// The first administrator of the configuration, by user name.
    Configured(String),
    /// A default administrator `admin`, created because there are no users.
    CreateDefault,
    /// The administrator created first in the database.
    FirstInDatabase,
}

/// The first configured administrator if there is one; otherwise a new
/// default administrator when the database has no users; otherwise the
/// database's first administrator.
pub fn admin_choice(users: &Vec<UserConfig>, user_count: i64) -> (r: AdminChoice)
    ensures
        (exists|j: int| 0 <= j < users@.len() && users@[j].role@ == ROLE_ADMIN@) ==> (r matches AdminChoice::Configured(
            name,
        ) && exists|i: int|
            0 <= i < users@.len() && users@[i].role@ == ROLE_ADMIN@ && name == users@[i].username && forall|
                j: int,
            | 0 <= j < i ==> users@[j].role@ != ROLE_ADMIN@),
        (forall|j: int| 0 <= j < users@.len() ==> users@[j].role@ != ROLE_ADMIN@) ==> (if user_count == 0 {
            r is CreateDefault
        } else {
            r is FirstInDatabase
        }),
{
    match first_config_admin(users) {
        Some(i) => AdminChoice::Configured(users[i].username.clone()),
        None => if user_count == 0 {
            AdminChoice::CreateDefault
        } else {
            AdminChoice::FirstInDatabase
        },
    }
}

/// The password of a new default administrator: the part of a random UUID
/// before its first hyphen.
pub fn default_admin_password(uuid: &str) -> (r: String)
    ensures
        r@ == first_segment(uuid@, '-'),
{
    first_segment_str(uuid, '-')
}

// ---------------------------------------------------------------------------
// Laws
// ---------------------------------------------------------------------------

/// The last administrator cannot be demoted: demoting an administrator is
/// always followed by the count check, and with one administrator or none
/// the check refuses.
pub proof fn lemma_last_admin_not_demoted(existing_role: Seq<char>, requested: String, admin_count: i64)
    requires
        existing_role == ROLE_ADMIN@,
        requested@ == ROLE_USER@,
        admin_count <= 1,
    ensures
        demotes_admin(existing_role, Some(requested)),
        !(admin_count > 1),
{
}

/// The administrator count is asked for only when an administrator is made
/// an ordinary user: any other role change (a user made administrator, a
/// role kept, no role given) needs no check.
pub proof fn lemma_only_demotion_is_checked(existing_role: Seq<char>, requested: Option<String>)
    ensures
        demotes_admin(existing_role, requested) ==> existing_role == "admin"@ && (requested matches Some(q) && q@
            == "user"@),
        existing_role == "user"@ ==> !demotes_admin(existing_role, requested),
        requested is None ==> !demotes_admin(existing_role, requested),
{
    reveal_strlit("admin");
    reveal_strlit("user");
    assert("admin"@ != "user"@) by {
        assert("admin"@[0] != "user"@[0]);
    }
}

} // verus!
