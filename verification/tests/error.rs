use rust_axum_server::svr::error::{HttpResError, HttpResErrorResponse};

#[test]
fn status_codes() {
    assert_eq!(HttpResError::SerdeJSON("e".to_string()).status_code(), 500);
    assert_eq!(HttpResError::BadRequest("e".to_string()).status_code(), 400);
    assert_eq!(HttpResError::HttpValidation("e".to_string()).status_code(), 400);
    assert_eq!(HttpResError::Sqlite("e".to_string()).status_code(), 400);
    assert_eq!(HttpResError::TokioRusqlite("e".to_string()).status_code(), 500);
}

#[test]
fn messages() {
    assert_eq!(
        HttpResError::BadRequest("empty payload".to_string()).to_message(),
        "Bad Request: \"empty payload\""
    );
    assert_eq!(
        HttpResError::BadRequest("a\"b\n".to_string()).to_message(),
        format!("Bad Request: {:?}", "a\"b\n")
    );
    assert_eq!(
        HttpResError::Sqlite("SqliteFailure".to_string()).to_message(),
        "A database operation failed  :SqliteFailure"
    );
    assert_eq!(
        HttpResError::TokioRusqlite("ConnectionClosed".to_string()).to_message(),
        "Failed to connect to the database service"
    );
    assert_eq!(HttpResError::HttpValidation("x".to_string()).to_message(), "Validation failed: x");
    assert_eq!(HttpResError::SerdeJSON("y".to_string()).to_message(), "Bad Request: y");
    let (status, body) = HttpResError::Sqlite("z".to_string()).into_response();
    assert_eq!(status, 400);
    assert_eq!(body, "A database operation failed  :z");
}

#[test]
fn error_body() {
    let r = HttpResErrorResponse::new("boom".to_string());
    assert_eq!(r.msg(), "boom");
}
