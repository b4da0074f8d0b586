use seichi_portal::web::api_error::PresentationError;
use seichi_portal::web::cursors::{
    cursor_bytes, encode_answer_list_cursor, encode_history_cursor, encode_notification_cursor,
    encode_user_list_cursor,
};

#[test]
fn cursors_are_url_safe_base64_of_a_one_member_json_object() {
    assert_eq!(
        encode_history_cursor(1),
        "eyJhZnRlcl9oaXN0b3J5X2lkIjoiMDAwMDAwMDAtMDAwMC0wMDAwLTAwMDAtMDAwMDAwMDAwMDAxIn0"
    );
    assert_eq!(
        encode_answer_list_cursor(0x018f4f37_2f5e_7b39_8b39_9a2f2695d7ad),
        "eyJhZnRlcl9hbnN3ZXJfaWQiOiIwMThmNGYzNy0yZjVlLTdiMzktOGIzOS05YTJmMjY5NWQ3YWQifQ"
    );
}

#[test]
fn a_written_cursor_reads_back_as_its_json() {
    for (cursor, field) in [
        (encode_notification_cursor(7), "after_notification_id"),
        (encode_user_list_cursor(7), "after_user_id"),
    ] {
        let bytes = cursor_bytes(&cursor).unwrap();
        let text = String::from_utf8(bytes).unwrap();
        assert_eq!(
            text,
            format!("{{\"{field}\":\"00000000-0000-0000-0000-000000000007\"}}")
        );
        assert!(!cursor.contains('='));
    }
}

#[test]
fn a_cursor_that_is_not_base64_is_an_invalid_query() {
    match cursor_bytes("not base64!") {
        Err(PresentationError::QueryRejection { cause }) => assert_eq!(cause, "Invalid cursor."),
        other => panic!("unexpected: {other:?}"),
    }
}
