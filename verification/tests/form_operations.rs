use seichi_portal::web::form_operations::{notification_after_response, Requester};

#[test]
fn sends_notification_only_for_successful_responses() {
    let success = notification_after_response(
        "POST".to_string(),
        "/forms/actual-id".to_string(),
        204,
        "test".to_string(),
        Requester::Anonymous,
    );
    let failure = notification_after_response(
        "POST".to_string(),
        "/forms/actual-id".to_string(),
        400,
        "test".to_string(),
        Requester::Anonymous,
    );
    let notice = success.unwrap();
    assert_eq!(notice.path, "/forms/actual-id");
    assert_eq!(notice.requester, Requester::Anonymous);
    assert!(failure.is_none());
}

#[test]
fn includes_authenticated_user_identity() {
    let notice = notification_after_response(
        "PATCH".to_string(),
        "/forms/1".to_string(),
        200,
        "production".to_string(),
        Requester::Authenticated {
            user_id: "user-1".to_string(),
            display_name: "player-name".to_string(),
        },
    )
    .unwrap();
    let fields = notice
        .into_fields()
        .into_iter()
        .map(|f| (f.name, f.value, f.inline))
        .collect::<Vec<_>>();
    assert_eq!(
        fields,
        vec![
            ("Method".to_string(), "PATCH".to_string(), true),
            ("Path".to_string(), "/forms/1".to_string(), false),
            ("Status".to_string(), "200".to_string(), true),
            ("Environment".to_string(), "production".to_string(), true),
            ("User ID".to_string(), "user-1".to_string(), true),
            ("Display Name".to_string(), "player-name".to_string(), true),
        ]
    );
    let anonymous = notification_after_response(
        "DELETE".to_string(),
        "/forms/1".to_string(),
        204,
        "dev".to_string(),
        Requester::Anonymous,
    )
    .unwrap()
    .into_fields();
    assert_eq!(anonymous.len(), 5);
    assert_eq!(anonymous[4].name, "User");
    assert_eq!(anonymous[4].value, "Anonymous");
}
