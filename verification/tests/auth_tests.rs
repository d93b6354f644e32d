use wiki_server::auth::{AuthUser, ROLE_ADMIN, ROLE_USER};
use wiki_server::projects::validate_user_path;

fn user(id: &str, role: &str) -> AuthUser {
    AuthUser::from_claims(id.to_string(), format!("name-{}", id), role.to_string())
}

#[test]
fn service_admin_identity() {
    let a = AuthUser::service_admin();
    assert_eq!(a.user_id, "service");
    assert_eq!(a.username, "service");
    assert_eq!(a.role, ROLE_ADMIN);
    assert!(a.is_admin());
}

#[test]
fn admin_by_role_or_service_id() {
    assert!(user("u1", "admin").is_admin());
    assert!(!user("u1", "user").is_admin());
    assert!(user("service", "user").is_admin());
    assert!(!user("u1", "Admin").is_admin());
    assert_eq!(ROLE_USER, "user");
}

#[test]
fn validate_path_own_directory() {
    let u = user("user1", "user");
    assert_eq!(
        u.validate_path("/srv/projects/user1", "/srv/projects"),
        Err("Access denied: path '/srv/projects/user1' is outside your project directory".to_string())
    );
    assert_eq!(u.validate_path("/srv/projects/user1/wiki", "/srv/projects"), Ok(()));
    assert_eq!(u.validate_path("/srv/projects/user1/a/b", "/srv/projects/"), Ok(()));
}

#[test]
fn validate_path_rejects_prefix_lookalike() {
    let u = user("user1", "user");
    assert_eq!(
        u.validate_path("/srv/projects/user12/wiki", "/srv/projects"),
        Err("Access denied: path '/srv/projects/user12/wiki' is outside your project directory".to_string())
    );
    assert!(u.validate_path("/srv/projects", "/srv/projects").is_err());
    assert!(u.validate_path("/etc/passwd", "/srv/projects").is_err());
}

#[test]
fn validate_path_admin_bypass() {
    assert_eq!(user("boss", "admin").validate_path("/etc", "/srv/projects"), Ok(()));
    assert_eq!(AuthUser::service_admin().validate_path("/anything", "/srv"), Ok(()));
}

#[test]
fn users_never_share_a_path() {
    let a = user("alice", "user");
    let b = user("bob", "user");
    for p in ["/p/alice", "/p/alice/x", "/p/bob/y", "/p/alicebob", "/p"] {
        assert!(!(a.validate_path(p, "/p").is_ok() && b.validate_path(p, "/p").is_ok()), "{}", p);
    }
}

#[test]
fn validate_user_path_delegates() {
    let u = user("u7", "user");
    assert!(validate_user_path(&u, "/data/u7/proj", "/data").is_ok());
    assert!(validate_user_path(&u, "/data/u8/proj", "/data").is_err());
}
