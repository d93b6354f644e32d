use wiki_server::auth::{AuthUser, User};
use wiki_server::users::{
    admin_choice, check_create_user, check_delete_user, check_role_change, default_admin_password,
    first_config_admin, is_admin_user, last_admin_guard, password_source, require_admin, updated_user,
    user_exists_error, user_not_found_error, user_update_statement, validate_role, AdminChoice, AdminRemoval,
    CreateUserBody, PasswordSource, UserConfig,
};

fn auth(name: &str, role: &str) -> AuthUser {
    AuthUser::from_claims(format!("id-{}", name), name.to_string(), role.to_string())
}

fn stored(name: &str, role: &str) -> User {
    User { id: format!("id-{}", name), username: name.to_string(), role: role.to_string(), created_at: 7 }
}

fn uc(name: &str, pw: &str, hash: &str, role: &str) -> UserConfig {
    UserConfig {
        username: name.to_string(),
        password: pw.to_string(),
        password_hash: hash.to_string(),
        role: role.to_string(),
    }
}

#[test]
fn admin_gate() {
    assert_eq!(require_admin(&auth("a", "admin")), Ok(()));
    assert_eq!(require_admin(&auth("u", "user")), Err("Admin privileges required".to_string()));
    assert_eq!(require_admin(&AuthUser::service_admin()), Ok(()));
}

#[test]
fn roles() {
    assert_eq!(validate_role("admin"), Ok(()));
    assert_eq!(validate_role("user"), Ok(()));
    assert_eq!(validate_role("root"), Err("Invalid role 'root'. Must be 'admin' or 'user'.".to_string()));
}

#[test]
fn create_user_checks() {
    let body = CreateUserBody { username: "n".to_string(), password: "p".to_string(), role: "guest".to_string() };
    assert_eq!(check_create_user(&auth("u", "user"), &body), Err("Admin privileges required".to_string()));
    assert_eq!(
        check_create_user(&auth("a", "admin"), &body),
        Err("Invalid role 'guest'. Must be 'admin' or 'user'.".to_string())
    );
    let ok = CreateUserBody { username: "n".to_string(), password: "p".to_string(), role: "user".to_string() };
    assert_eq!(check_create_user(&auth("a", "admin"), &ok), Ok(()));
    assert_eq!(user_exists_error("bob"), "User 'bob' already exists");
    assert_eq!(user_not_found_error("bob"), "User 'bob' not found");
}

#[test]
fn role_changes_and_last_admin() {
    let admin = stored("a", "admin");
    assert_eq!(check_role_change(&admin, &Some("user".to_string())), Ok(true));
    assert_eq!(check_role_change(&admin, &Some("admin".to_string())), Ok(false));
    assert_eq!(check_role_change(&stored("u", "user"), &Some("user".to_string())), Ok(false));
    assert_eq!(check_role_change(&admin, &None), Ok(false));
    assert!(check_role_change(&admin, &Some("boss".to_string())).is_err());
    assert_eq!(last_admin_guard(1, AdminRemoval::Demote), Err("Cannot remove the last admin".to_string()));
    assert_eq!(last_admin_guard(0, AdminRemoval::Delete), Err("Cannot delete the last admin".to_string()));
    assert_eq!(last_admin_guard(2, AdminRemoval::Delete), Ok(()));
}

#[test]
fn update_keeps_identity() {
    let u = updated_user(stored("a", "admin"), &Some("user".to_string()));
    assert_eq!(u.role, "user");
    assert_eq!(u.username, "a");
    assert_eq!(u.created_at, 7);
    let same = updated_user(stored("b", "user"), &None);
    assert_eq!(same.role, "user");
}

#[test]
fn update_statements() {
    assert_eq!(
        user_update_statement(true, true).as_deref(),
        Some("UPDATE users SET password_hash = ?, role = ? WHERE username = ?")
    );
    assert_eq!(user_update_statement(true, false).as_deref(), Some("UPDATE users SET password_hash = ? WHERE username = ?"));
    assert_eq!(user_update_statement(false, true).as_deref(), Some("UPDATE users SET role = ? WHERE username = ?"));
    assert_eq!(user_update_statement(false, false), None);
}

#[test]
fn delete_checks() {
    assert_eq!(check_delete_user(&auth("a", "admin"), "a"), Err("Cannot delete yourself".to_string()));
    assert_eq!(check_delete_user(&auth("a", "admin"), "b"), Ok(()));
    assert_eq!(check_delete_user(&auth("u", "user"), "b"), Err("Admin privileges required".to_string()));
    assert!(is_admin_user(&stored("a", "admin")));
    assert!(!is_admin_user(&stored("u", "user")));
}

#[test]
fn configured_user_passwords() {
    assert!(matches!(password_source(&uc("a", "pw", "$hash", "user")), PasswordSource::Hash(h) if h == "$hash"));
    assert!(matches!(password_source(&uc("a", "pw", "", "user")), PasswordSource::Plain(p) if p == "pw"));
    assert!(matches!(password_source(&uc("a", "", "", "user")), PasswordSource::Missing));
}

#[test]
fn admin_receiving_orphans() {
    let users = vec![uc("u", "p", "", "user"), uc("boss", "p", "", "admin"), uc("boss2", "p", "", "admin")];
    assert_eq!(first_config_admin(&users), Some(1));
    assert!(matches!(admin_choice(&users, 5), AdminChoice::Configured(n) if n == "boss"));
    let none = vec![uc("u", "p", "", "user")];
    assert_eq!(first_config_admin(&none), None);
    assert!(matches!(admin_choice(&none, 0), AdminChoice::CreateDefault));
    assert!(matches!(admin_choice(&none, 3), AdminChoice::FirstInDatabase));
    assert!(matches!(admin_choice(&vec![], 0), AdminChoice::CreateDefault));
}

#[test]
fn default_password_is_first_uuid_group() {
    assert_eq!(default_admin_password("3f2a1b4c-9d8e-4f00-8a1b-1234567890ab"), "3f2a1b4c");
    assert_eq!(default_admin_password("nohyphen"), "nohyphen");
}
