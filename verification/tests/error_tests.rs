use wiki_server::error::{AppError, STATUS_CONFLICT, STATUS_FORBIDDEN, STATUS_NOT_FOUND};

#[test]
fn error_constructors_carry_status_and_message() {
    let e = AppError::not_found("Project not found".to_string());
    assert_eq!(e.status, STATUS_NOT_FOUND);
    assert_eq!(e.message, "Project not found");
    assert_eq!(AppError::bad_request("x".to_string()).status, 400);
    assert_eq!(AppError::forbidden("x".to_string()).status, STATUS_FORBIDDEN);
    assert_eq!(AppError::internal("x".to_string()).status, 500);
    assert_eq!(AppError::conflict("x".to_string()).status, STATUS_CONFLICT);
    assert_eq!(AppError::unauthorized("x".to_string()).status, 401);
}

#[test]
fn database_error_message() {
    let e = AppError::database("disk full");
    assert_eq!(e.status, 500);
    assert_eq!(e.message, "Database error: disk full");
    let s: String = e.into();
    assert_eq!(s, "Database error: disk full");
}
