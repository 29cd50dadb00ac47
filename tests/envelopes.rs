use media_relay::envelope::{BadResponseObject, DetailValue, ErrorCode};
use media_relay::rewriter::{clean_error_message, rewrite_error_response, rewrite_plain_error, ResponseBody};

fn text_of(v: Option<&DetailValue>) -> Option<String> {
    match v {
        Some(DetailValue::Text(s)) => Some(s.clone()),
        _ => None,
    }
}

#[test]
fn catalogue_entries_carry_code_and_message() {
    let e = ErrorCode::ValidationError.details();
    assert_eq!(e.code(), 4400);
    assert_eq!(e.msg(), "Validation error");
    assert!(!e.is_redirect());
    assert!(!e.is_notification());
    assert!(e.details().is_empty());
    assert_eq!(ErrorCode::CoreFileUploadingError.number(), 5022);
    assert_eq!(ErrorCode::NotFoundError.number(), 4504);
    assert_eq!(ErrorCode::UnknownError.number(), 5999);
    assert_eq!(ErrorCode::UnknownError.message(), "Internal Server Error");
    assert_eq!(ErrorCode::DbError.message(), "Bad Gateway");
}

#[test]
fn defaults_are_bad_request_and_internal_error() {
    let a = BadResponseObject::default_400();
    assert_eq!((a.code(), a.msg()), (4000, "Bad Request"));
    let b = BadResponseObject::default_500();
    assert_eq!((b.code(), b.msg()), (5000, "Internal Server Error"));
}

#[test]
fn with_overwrites_the_same_key() {
    let e = BadResponseObject::new(4000, "Bad".to_string())
        .with("reason", DetailValue::text("first"))
        .with("field", DetailValue::Integer(3))
        .with("reason", DetailValue::text("second"));
    assert_eq!(text_of(e.detail("reason")), Some("second".to_string()));
    assert!(matches!(e.detail("field"), Some(DetailValue::Integer(3))));
    assert!(e.detail("missing").is_none());
}

#[test]
fn with_if_and_with_opt_add_only_when_asked() {
    let e = ErrorCode::BadRequest.details()
        .with_if(false, "a", DetailValue::Flag(true))
        .with_if(true, "b", DetailValue::Flag(true))
        .with_opt("c", None)
        .with_opt("d", Some(DetailValue::text("x")));
    assert!(e.detail("a").is_none());
    assert!(matches!(e.detail("b"), Some(DetailValue::Flag(true))));
    assert!(e.detail("c").is_none());
    assert_eq!(text_of(e.detail("d")), Some("x".to_string()));
}

#[test]
fn flags_are_set_by_builders() {
    let e = ErrorCode::InternalError.details().redirect().notification();
    assert!(e.is_redirect());
    assert!(e.is_notification());
    assert_eq!(e.code(), 5000);
}

#[test]
fn status_follows_the_code_range() {
    assert_eq!(ErrorCode::TaskNotFound.details().http_status(), 400);
    assert_eq!(ErrorCode::PayloadTooLarge.details().http_status(), 400);
    assert_eq!(ErrorCode::CoreOffline.details().http_status(), 500);
    assert_eq!(BadResponseObject::new(5000, String::new()).http_status(), 500);
}

#[test]
fn cleaning_keeps_only_echo_safe_characters() {
    assert_eq!(clean_error_message("  bad\u{0}\u{1} value: <x> 'y'  "), "bad value: x 'y'");
    assert_eq!(clean_error_message("Ошибка в поле, id=7!"), "Ошибка в поле, id7");
    assert_eq!(clean_error_message("\u{7}\u{1b}[31m"), "31m");
    assert_eq!(clean_error_message(""), "");
    assert_eq!(clean_error_message(" \t\n "), "");
    assert_eq!(clean_error_message("a`b-c.d"), "a`b-c.d");
}

#[test]
fn plain_bad_request_becomes_a_validation_error() {
    let body = b"Invalid \x00\x07URL: missing `id`\x1b!".to_vec();
    let (status, e) = rewrite_error_response(400, ResponseBody::Raw(body), "/upload-track-single").unwrap();
    assert_eq!(status, 400);
    assert_eq!(e.code(), 4400);
    assert_eq!(e.msg(), "Validation error");
    assert_eq!(text_of(e.detail("reason")), Some("Invalid URL: missing `id`".to_string()));
    assert_eq!(text_of(e.detail("endpoint")), Some("/upload-track-single".to_string()));
    assert_eq!(e.details().len(), 2);
}

#[test]
fn invalid_utf8_in_a_plain_body_is_dropped() {
    let (_, e) = rewrite_error_response(400, ResponseBody::Raw(vec![b'o', 0xff, b'k']), "/p").unwrap();
    assert_eq!(text_of(e.detail("reason")), Some("ok".to_string()));
}

#[test]
fn envelope_body_keeps_code_and_message() {
    let incoming = ErrorCode::TaskNotFound.details()
        .with("task", DetailValue::Integer(9))
        .with("endpoint", DetailValue::text("/old"))
        .notification();
    let (status, e) = rewrite_error_response(422, ResponseBody::Envelope(incoming), "/tasks/9").unwrap();
    assert_eq!(status, 400);
    assert_eq!(e.code(), 4061);
    assert_eq!(e.msg(), "Task not found");
    assert!(e.is_notification());
    assert!(matches!(e.detail("task"), Some(DetailValue::Integer(9))));
    assert_eq!(text_of(e.detail("endpoint")), Some("/tasks/9".to_string()));
}

#[test]
fn server_envelope_keeps_server_status() {
    let incoming = ErrorCode::CoreFileUploadingError.details();
    let (status, e) = rewrite_error_response(500, ResponseBody::Envelope(incoming), "/upload").unwrap();
    assert_eq!(status, 500);
    assert_eq!(e.code(), 5022);
}

#[test]
fn not_found_becomes_the_not_found_envelope() {
    let (status, e) = rewrite_error_response(404, ResponseBody::Raw(Vec::new()), "/nowhere").unwrap();
    assert_eq!(status, 400);
    assert_eq!(e.code(), 4504);
    assert_eq!(text_of(e.detail("endpoint")), Some("/nowhere".to_string()));
    assert!(e.detail("reason").is_none());
}

#[test]
fn server_errors_do_not_leak_their_text() {
    let body = b"panic at src/db.rs:42 password=SECRET-REDACTED".to_vec();
    let (status, e) = rewrite_error_response(502, ResponseBody::Raw(body), "/x").unwrap();
    assert_eq!(status, 500);
    assert_eq!(e.code(), 5000);
    assert_eq!(e.msg(), "Internal Server Error");
    assert_eq!(e.details().len(), 1);
}

#[test]
fn other_client_errors_record_their_status() {
    let (status, e) = rewrite_plain_error(403, "forbidden", "/admin").unwrap();
    assert_eq!(status, 500);
    assert_eq!(e.code(), 5999);
    assert!(matches!(e.detail("status"), Some(DetailValue::Integer(403))));
    assert_eq!(text_of(e.detail("endpoint")), Some("/admin".to_string()));
}

#[test]
fn unreadable_body_becomes_the_generic_server_error() {
    let (status, e) = rewrite_error_response(400, ResponseBody::Unreadable, "/y").unwrap();
    assert_eq!(status, 500);
    assert_eq!(e.code(), 5000);
    assert_eq!(text_of(e.detail("endpoint")), Some("/y".to_string()));
}

#[test]
fn successful_responses_pass_through() {
    assert!(rewrite_error_response(200, ResponseBody::Raw(b"fine".to_vec()), "/").is_none());
    assert!(rewrite_error_response(204, ResponseBody::Unreadable, "/").is_none());
    assert!(rewrite_plain_error(299, "x", "/").is_none());
}

#[test]
fn redirects_and_informational_statuses_are_rewritten() {
    let (status, e) = rewrite_error_response(302, ResponseBody::Raw(b"moved".to_vec()), "/old").unwrap();
    assert_eq!(status, 500);
    assert_eq!(e.code(), 5999);
    assert!(matches!(e.detail("status"), Some(DetailValue::Integer(302))));
    assert_eq!(text_of(e.detail("endpoint")), Some("/old".to_string()));
    let (_, e) = rewrite_plain_error(101, "", "/ws").unwrap();
    assert!(matches!(e.detail("status"), Some(DetailValue::Integer(101))));
    let (status, e) = rewrite_plain_error(600, "x", "/").unwrap();
    assert_eq!((status, e.code()), (500, 5999));
}

#[test]
fn envelope_on_a_redirect_gets_the_endpoint() {
    let incoming = ErrorCode::WrongFormat.details();
    let (status, e) = rewrite_error_response(301, ResponseBody::Envelope(incoming), "/fmt").unwrap();
    assert_eq!(status, 400);
    assert_eq!(e.code(), 4411);
    assert_eq!(text_of(e.detail("endpoint")), Some("/fmt".to_string()));
}

#[test]
fn every_catalogue_code_is_an_envelope_code() {
    let all = [
        ErrorCode::BadRequest, ErrorCode::ValidationError, ErrorCode::NotFoundError,
        ErrorCode::PayloadTooLarge, ErrorCode::InternalError, ErrorCode::CoreFileUploadingError,
        ErrorCode::UnknownError, ErrorCode::UserExists, ErrorCode::TooManyRequestsError,
    ];
    for c in all {
        let n = c.number();
        assert!((4000..=5999).contains(&n));
        assert_eq!(c.details().http_status(), if n < 5000 { 400 } else { 500 });
    }
}

#[test]
fn notify_sets_the_notification_flag() {
    let e = ErrorCode::CoreOffline.details().notify();
    assert!(e.is_notification());
    assert!(!e.is_redirect());
    assert_eq!(e.code(), 5021);
}
