use syno_photo_frame::api_client::{is_success_status, read_response, InvalidHttpResponse};
use syno_photo_frame::logging::{redact_form, LogLevel, LoggingClientDecorator};

#[test]
fn password_is_redacted_in_logged_forms() {
    let form = [("sharing_id", "abc"), ("password", "\"secret\""), ("version", "1")];

    let logged = redact_form(&form);

    assert_eq!(logged, vec![("sharing_id", "abc"), ("password", "[REDACTED]"), ("version", "1")]);
}

#[test]
fn decorator_logs_at_debug_unless_told_otherwise() {
    let decorator = LoggingClientDecorator::new(5u8);
    assert_eq!(decorator.level(), LogLevel::Debug);
    assert_eq!(*decorator.client(), 5);

    let decorator = decorator.with_level(LogLevel::Trace);
    assert_eq!(decorator.level(), LogLevel::Trace);
    assert_eq!(*decorator.client(), 5);
}

#[test]
fn responses_are_read_only_on_success_status() {
    assert!(is_success_status(200));
    assert!(!is_success_status(300));
    assert!(!is_success_status(199));
    assert_eq!(read_response(204, "body"), Ok("body"));
    assert_eq!(read_response(404, "body"), Err(InvalidHttpResponse(404)));
}
