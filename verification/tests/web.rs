use seichi_portal::non_empty_string::NonEmptyString;
use seichi_portal::schemas::{required_query, SearchQuery};
use seichi_portal::validation::ValidationError;
use seichi_portal::web::api_error::{
    handle_error, ApiError, DomainError, Error, InfraError, PresentationError, UseCaseError,
};
use seichi_portal::web::attachments::content_disposition;
use seichi_portal::web::discord_events::{
    message_from_event, operation_name, AnswerSubmissionActor, ApplicationActor,
    ApplicationEvent, EventDetail,
};
use seichi_portal::web::field_update::{
    default_answer_title_from_text, into_default_answer_title, into_discord_webhook_url,
    settings_changes, AnswerSettingsRequest, FieldUpdate, FormSettingsRequest, FormVisibility,
};
use seichi_portal::web::paths::{request_path_without_api_prefix, RequestMethod};
use seichi_portal::web::rate_limit::{
    policy_for, rate_limit_headers, rate_limit_outcome, resolve_client_ip, ClientIpResolution,
    IpAddress, RateLimitDecision, RateLimitHeaders, RateLimitIdentity, RateLimitOutcome,
    RateLimitPlan, RateLimitPolicyError, StoreAnswer, rate_limit_identity,
};
use seichi_portal::web::search_status::{
    apply_status_transition, initialization_gate, shutdown_requested,
    transition_search_engine_status, update_search_engine_initialization_status,
    SearchEngineInitializationStatus, StatusTransition,
};
use seichi_portal::web::session::SessionPolicy;
use seichi_portal::web::turnstile::{
    allowed_hostname, expected_action, normalize_allowed_hostnames, token_is_usable,
    turnstile_step, verdict, TurnstileAction, TurnstileOutcome, TurnstileStep, TurnstileVerdict,
};

fn ip(value: &str) -> IpAddress {
    IpAddress { canonical: value.to_owned() }
}

#[test]
fn proxy_ip_requires_matching_secret() {
    let client = Some(ip("203.0.113.4"));
    assert_eq!(
        resolve_client_ip(Some("secret"), client.clone(), Some(ip("192.0.2.1")), Some("secret")),
        ClientIpResolution::Canonical(ip("203.0.113.4"))
    );
    assert_eq!(
        resolve_client_ip(Some("secret"), client.clone(), Some(ip("192.0.2.1")), Some("wrong")),
        ClientIpResolution::TcpPeer(ip("192.0.2.1"))
    );
    assert_eq!(
        resolve_client_ip(Some("secret"), client, Some(ip("192.0.2.1")), None),
        ClientIpResolution::TcpPeer(ip("192.0.2.1"))
    );
}

#[test]
fn malformed_proxy_ip_uses_tcp_peer() {
    assert_eq!(
        resolve_client_ip(
            Some("secret"),
            None,
            Some(ip("192.0.2.1")),
            Some("secret")
        ),
        ClientIpResolution::TcpPeer(ip("192.0.2.1"))
    );
    assert_eq!(
        resolve_client_ip(None, None, None, Some("secret")),
        ClientIpResolution::Unavailable
    );
}

#[test]
fn temporary_answer_has_only_temporary_quotas() {
    let form_id = "018F4F37-2F5E-7B9A-8B39-9A2F2695D7AD";
    let canonical_form_id = form_id.to_ascii_lowercase();
    let plan = policy_for(
        RequestMethod::Post,
        &format!("/api/v1/forms/{form_id}/temporary-answers"),
        Some(&RateLimitIdentity::Ip(ip("192.0.2.1"))),
    )
    .unwrap();
    assert_eq!(plan.label(), "temporary_answer");
    assert_eq!(plan.quotas().len(), 3);
    assert!(plan.quotas().iter().any(|quota| quota.key.contains(&canonical_form_id)));
}

#[test]
fn temporary_answer_quota_keys_and_limits() {
    let plan = RateLimitPlan::TemporaryAnswer {
        ip: ip("192.0.2.1"),
        form_id: 0x018f4f37_2f5e_7b9a_8b39_9a2f2695d7ad,
    };
    let quotas = plan.quotas();
    assert_eq!(quotas[0].key, "rl:v1:temporary:ip:192.0.2.1");
    assert_eq!((quotas[0].limit, quotas[0].window_seconds), (30, 3600));
    assert_eq!(
        quotas[1].key,
        "rl:v1:temporary:form:192.0.2.1:018f4f37-2f5e-7b9a-8b39-9a2f2695d7ad"
    );
    assert_eq!((quotas[1].limit, quotas[1].window_seconds), (10, 3600));
    assert_eq!(quotas[2].key, "rl:v1:temporary:burst:192.0.2.1");
    assert_eq!((quotas[2].limit, quotas[2].window_seconds), (5, 600));
    let anonymous = RateLimitPlan::AnonymousGet { ip: ip("192.0.2.1") }.quotas();
    assert_eq!(anonymous[0].key, "rl:v1:anon:get:192.0.2.1");
    assert_eq!((anonymous[0].limit, anonymous[0].window_seconds), (60, 60));
    assert!(RateLimitPlan::Skip.quotas().is_empty());
}

#[test]
fn nested_router_stripped_form_path_still_gets_anonymous_quota() {
    let plan = policy_for(
        RequestMethod::Get,
        "/forms",
        Some(&RateLimitIdentity::Ip(ip("192.0.2.1"))),
    )
    .unwrap();
    assert_eq!(plan.label(), "anonymous_get");
}

#[test]
fn nested_router_stripped_temporary_path_still_gets_temporary_quota() {
    let plan = policy_for(
        RequestMethod::Post,
        "/forms/018f4f37-2f5e-7b9a-8b39-9a2f2695d7ad/temporary-answers",
        Some(&RateLimitIdentity::Ip(ip("192.0.2.1"))),
    )
    .unwrap();
    assert_eq!(plan.label(), "temporary_answer");
}

#[test]
fn nested_router_stripped_authenticated_path_uses_user_quota() {
    let plan = policy_for(
        RequestMethod::Get,
        "/users",
        Some(&RateLimitIdentity::User("user-id".to_owned())),
    )
    .unwrap();
    assert_eq!(plan.label(), "authenticated_get");
}

#[test]
fn invalid_temporary_form_id_does_not_create_a_key() {
    let plan = policy_for(
        RequestMethod::Post,
        "/api/v1/forms/not-a-uuid/temporary-answers",
        Some(&RateLimitIdentity::Ip(ip("192.0.2.1"))),
    )
    .unwrap();
    assert_eq!(plan, RateLimitPlan::Skip);
}

#[test]
fn authenticated_delete_session_uses_user_quota() {
    let plan = policy_for(
        RequestMethod::Delete,
        "/api/v1/session",
        Some(&RateLimitIdentity::User("user-id".to_owned())),
    )
    .unwrap();
    assert_eq!(plan.label(), "authenticated_write");
}

#[test]
fn delete_session_without_user_is_an_error() {
    assert_eq!(
        policy_for(RequestMethod::Delete, "/api/v1/session", None),
        Err(RateLimitPolicyError::MissingAuthenticatedIdentity)
    );
}

#[test]
fn preflight_and_foreign_paths_use_no_quota() {
    let user = RateLimitIdentity::User("u".to_owned());
    assert_eq!(policy_for(RequestMethod::Options, "/forms", Some(&user)), Ok(RateLimitPlan::Skip));
    assert_eq!(policy_for(RequestMethod::Get, "/api/v10/forms", Some(&user)), Ok(RateLimitPlan::Skip));
    assert_eq!(policy_for(RequestMethod::Get, "forms", Some(&user)), Ok(RateLimitPlan::Skip));
    assert_eq!(
        policy_for(RequestMethod::Patch, "/api/v1/forms/x/y", Some(&user)),
        Ok(RateLimitPlan::AuthenticatedWrite { user_id: "u".to_owned() })
    );
    assert_eq!(
        policy_for(RequestMethod::Post, "/session", Some(&RateLimitIdentity::Ip(ip("::1")))),
        Ok(RateLimitPlan::SessionCreate { ip: ip("::1") })
    );
    assert_eq!(policy_for(RequestMethod::Get, "/forms", None), Ok(RateLimitPlan::Skip));
}

#[test]
fn rate_limit_headers_follow_the_decision() {
    let allowed = RateLimitDecision {
        allowed: true,
        retry_after_seconds: 0,
        remaining: 1,
        limit: 2,
        reset_seconds: 0,
    };
    assert_eq!(
        rate_limit_headers(allowed),
        RateLimitHeaders { limit: 2, remaining: 1, reset: 1, retry_after: None }
    );
    let refused = RateLimitDecision { allowed: false, retry_after_seconds: 7, ..allowed };
    assert_eq!(
        rate_limit_headers(refused),
        RateLimitHeaders { limit: 2, remaining: 1, reset: 7, retry_after: Some(7) }
    );
    assert_eq!(rate_limit_outcome(StoreAnswer::Unavailable), RateLimitOutcome::Forward);
    match rate_limit_outcome(StoreAnswer::Decided(refused)) {
        RateLimitOutcome::Respond(problem, Some(headers)) => {
            assert_eq!(problem.status, 429);
            assert_eq!(problem.title, "Too Many Requests");
            assert_eq!(problem.error_code, "RATE_LIMIT_EXCEEDED");
            assert_eq!(headers.retry_after, Some(7));
        }
        other => panic!("unexpected outcome {other:?}"),
    }
    match rate_limit_outcome(StoreAnswer::Invalid) {
        RateLimitOutcome::Respond(problem, None) => {
            assert_eq!(problem.status, 500);
            assert_eq!(problem.title, "Internal Server Error");
        }
        other => panic!("unexpected outcome {other:?}"),
    }
}

#[test]
fn configured_proxy_secret_is_required_for_session_creation() {
    let policy = SessionPolicy::new(60, Some("expected".to_owned()));

    assert!(!policy.allows_session_creation(None));
    assert!(!policy.allows_session_creation(Some("different")));
    assert!(policy.allows_session_creation(Some("expected")));
}

#[test]
fn proxy_secret_is_optional_for_local_development() {
    let policy = SessionPolicy::new(60, None);

    assert!(policy.allows_session_creation(None));
    assert_eq!(policy.maximum_lifetime_seconds(), 60);
    assert!(SessionPolicy::new(60, Some(String::new())).allows_session_creation(None));
}

#[test]
fn only_the_two_public_post_routes_have_an_action() {
    assert_eq!(
        expected_action(RequestMethod::Post, "/session"),
        Some(TurnstileAction::SessionCreate)
    );
    assert_eq!(
        expected_action(
            RequestMethod::Post,
            "/api/v1/forms/018f4f37-2f5e-7b39-8b39-9a2f2695d7ad/temporary-answers"
        ),
        Some(TurnstileAction::TemporaryAnswer)
    );
    assert_eq!(expected_action(RequestMethod::Get, "/forms"), None);
    assert_eq!(expected_action(RequestMethod::Post, "/users"), None);
    assert_eq!(expected_action(RequestMethod::Post, "/api/v10/session"), None);
}

#[test]
fn hostname_matching_is_case_insensitive_but_not_wildcard_based() {
    let allowed = vec!["example.com".to_owned()];
    assert!(allowed_hostname("example.com", &allowed));
    assert!(allowed_hostname("EXAMPLE.COM", &allowed));
    assert!(!allowed_hostname("sub.example.com", &allowed));

    let wildcard = vec!["*.example.com".to_owned()];
    assert!(!allowed_hostname("sub.example.com", &wildcard));
}

#[test]
fn missing_token_is_forbidden() {
    assert!(!token_is_usable(None));
    assert!(!token_is_usable(Some("")));
    assert!(!token_is_usable(Some(&"t".repeat(2049))));
    assert!(token_is_usable(Some("token")));
}

#[test]
fn action_or_hostname_mismatch_is_forbidden() {
    let allowed = normalize_allowed_hostnames(vec!["Example.com".to_owned()]);
    for outcome in [
        TurnstileOutcome::Accepted {
            action: Some("temporary-answer".to_owned()),
            hostname: Some("example.com".to_owned()),
        },
        TurnstileOutcome::Accepted {
            action: Some("session-create".to_owned()),
            hostname: Some("other.example.com".to_owned()),
        },
        TurnstileOutcome::Accepted { action: Some("session-create".to_owned()), hostname: None },
        TurnstileOutcome::Rejected,
    ] {
        assert_eq!(
            verdict(TurnstileAction::SessionCreate, &outcome, &allowed),
            TurnstileVerdict::Forbidden
        );
    }
    assert_eq!(
        verdict(
            TurnstileAction::SessionCreate,
            &TurnstileOutcome::Accepted {
                action: Some("session-create".to_owned()),
                hostname: Some("EXAMPLE.COM".to_owned()),
            },
            &allowed
        ),
        TurnstileVerdict::Pass
    );
}

#[test]
fn verifier_unavailability_is_service_unavailable() {
    let allowed = vec!["example.com".to_owned()];
    assert_eq!(
        verdict(TurnstileAction::SessionCreate, &TurnstileOutcome::Unavailable, &allowed),
        TurnstileVerdict::Unavailable
    );
    assert_eq!(
        verdict(TurnstileAction::TemporaryAnswer, &TurnstileOutcome::InvalidResponse, &allowed),
        TurnstileVerdict::Unavailable
    );
}

#[test]
fn api_paths_lose_their_prefix() {
    assert_eq!(request_path_without_api_prefix("/api/v1"), Some("/"));
    assert_eq!(request_path_without_api_prefix("/api/v1/forms"), Some("/forms"));
    assert_eq!(request_path_without_api_prefix("/api/v10"), None);
    assert_eq!(request_path_without_api_prefix("/users"), Some("/users"));
    assert_eq!(request_path_without_api_prefix("users"), None);
}

#[test]
fn content_disposition_percent_encodes_the_original_file_name() {
    assert_eq!(
        content_disposition("レポート.txt"),
        "attachment; filename=download; filename*=UTF-8''%E3%83%AC%E3%83%9D%E3%83%BC%E3%83%88.txt"
    );
}

#[test]
fn content_disposition_is_ascii_and_decodes_back_to_the_name() {
    let name = "報告 \"final\";\r\n.txt";
    let header = content_disposition(name);
    assert!(header.is_ascii());
    let encoded = header
        .strip_prefix("attachment; filename=download; filename*=UTF-8''")
        .unwrap()
        .as_bytes();
    let mut decoded = Vec::new();
    let mut i = 0;
    while i < encoded.len() {
        if encoded[i] == b'%' {
            let hex = std::str::from_utf8(&encoded[i + 1..i + 3]).unwrap();
            decoded.push(u8::from_str_radix(hex, 16).unwrap());
            i += 3;
        } else {
            decoded.push(encoded[i]);
            i += 1;
        }
    }
    assert_eq!(String::from_utf8(decoded).unwrap(), name);
}

#[test]
fn content_disposition_keeps_unreserved_ascii() {
    assert_eq!(
        content_disposition("a-b_c.d~e f"),
        "attachment; filename=download; filename*=UTF-8''a-b_c.d~e%20f"
    );
}

#[test]
fn default_answer_title_rejects_empty_strings() {
    for title in ["", "   "] {
        assert!(
            default_answer_title_from_text(title).is_err(),
            "{title:?} should be rejected"
        );
    }
    assert_eq!(
        default_answer_title_from_text("回答").map(|t| t.into_inner()),
        Ok("回答".to_string())
    );
}

#[test]
fn status_transition_reports_the_status_it_found() {
    let (sender, receiver) =
        tokio::sync::watch::channel(SearchEngineInitializationStatus::Pending);

    assert_eq!(
        transition_search_engine_status(&sender, SearchEngineInitializationStatus::Shutdown),
        StatusTransition {
            before: SearchEngineInitializationStatus::Pending,
            after: SearchEngineInitializationStatus::Shutdown,
            changed: true,
        }
    );
    assert_eq!(
        transition_search_engine_status(&sender, SearchEngineInitializationStatus::Ready),
        StatusTransition {
            before: SearchEngineInitializationStatus::Shutdown,
            after: SearchEngineInitializationStatus::Shutdown,
            changed: false,
        }
    );
    assert_eq!(*receiver.borrow(), SearchEngineInitializationStatus::Shutdown);
}

#[test]
fn search_engine_shutdown_status_cannot_be_overwritten_by_ready() {
    let (sender, receiver) =
        tokio::sync::watch::channel(SearchEngineInitializationStatus::Pending);

    assert!(update_search_engine_initialization_status(
        &sender,
        SearchEngineInitializationStatus::Shutdown,
    ));
    assert!(!update_search_engine_initialization_status(
        &sender,
        SearchEngineInitializationStatus::Ready,
    ));
    assert_eq!(*receiver.borrow(), SearchEngineInitializationStatus::Shutdown);
}

#[test]
fn status_transitions_change_only_what_they_may() {
    let mut status = SearchEngineInitializationStatus::Pending;
    assert!(apply_status_transition(&mut status, SearchEngineInitializationStatus::Ready));
    assert!(!apply_status_transition(&mut status, SearchEngineInitializationStatus::Ready));
    assert_eq!(status, SearchEngineInitializationStatus::Ready);
    assert!(apply_status_transition(&mut status, SearchEngineInitializationStatus::Shutdown));
    assert!(!apply_status_transition(&mut status, SearchEngineInitializationStatus::Pending));
    assert_eq!(status, SearchEngineInitializationStatus::Shutdown);
}

#[test]
fn field_updates_tell_omitted_from_null() {
    assert!(matches!(FieldUpdate::<i32>::default(), FieldUpdate::Unchanged));
    assert!(matches!(FieldUpdate::<i32>::from_present(None), FieldUpdate::Clear));
    assert!(matches!(FieldUpdate::from_present(Some(3)), FieldUpdate::SetTo(3)));
}

fn problem(e: &ApiError) -> (u16, &str, &str, &str) {
    (e.status, e.title, e.detail.as_str(), e.error_code)
}

#[test]
fn temporary_answer_message_posting_error_is_an_unprocessable_entity_problem() {
    let error = handle_error(Error::Domain {
        source: DomainError::MessagePostingNotSupportedForTemporaryAnswer,
    });
    assert_eq!(
        problem(&error),
        (
            422,
            "Unprocessable Entity",
            "Messages cannot be posted to temporary answers.",
            "MESSAGE_POSTING_NOT_SUPPORTED_FOR_TEMPORARY_ANSWER"
        )
    );
    assert!(error.restriction.is_none());
}

#[test]
fn submission_restriction_error_includes_restriction_details() {
    let error = handle_error(Error::Domain {
        source: DomainError::SubmissionRestricted { reason: "spam".to_string(), expires_at: None },
    });
    assert_eq!(error.status, 403);
    assert_eq!(error.error_code, "SUBMISSION_RESTRICTED");
    let restriction = error.restriction.unwrap();
    assert_eq!(restriction.reason, "spam");
    assert_eq!(restriction.expires_at, None);
}

#[test]
fn meilisearch_error_is_a_search_service_unavailable_problem() {
    let error = handle_error(Error::Infra {
        source: InfraError::MeiliSearch { cause: "connection refused".to_string() },
    });
    assert_eq!(
        problem(&error),
        (
            503,
            "Service Unavailable",
            "Search service is temporarily unavailable.",
            "SEARCH_SERVICE_UNAVAILABLE"
        )
    );
}

#[test]
fn other_errors_map_to_their_problems() {
    let database = handle_error(Error::Infra {
        source: InfraError::Database { source: "secret connection string".to_string() },
    });
    assert_eq!(
        problem(&database),
        (500, "Internal Server Error", "Database Error", "INTERNAL_SERVER_ERROR")
    );
    let missing = handle_error(Error::UseCase { source: UseCaseError::FormNotFound });
    assert_eq!(problem(&missing), (404, "Not Found", "Form not found.", "FORM_NOT_FOUND"));
    let empty = handle_error(Error::Validation { source: ValidationError::EmptyValue });
    assert_eq!(problem(&empty), (400, "Bad Request", "Empty value error.", "EMPTY_VALUE"));
    let json = handle_error(Error::Presentation {
        source: PresentationError::JsonRejection { cause: "bad json".to_string() },
    });
    assert_eq!(
        problem(&json),
        (422, "Unprocessable Content", "bad json", "UNPROCESSABLE_CONTENT")
    );
    let unauthorized = ApiError::unauthorized("no token");
    assert_eq!(problem(&unauthorized), (401, "Unauthorized", "no token", "UNAUTHORIZED"));
}

fn actor() -> ApplicationActor {
    ApplicationActor {
        display_name: "administrator".to_string(),
        account_id: Some("account-id".to_string()),
    }
}

#[test]
fn message_from_event_uses_the_explicit_frontend_url() {
    let event = ApplicationEvent::FormRestored {
        actor: actor(),
        form_id: "form-id".to_string(),
        form_title: "Form".to_string(),
    };

    let message = message_from_event(
        event,
        "https://discord.com/api/webhooks/123/token".to_string(),
        "https://portal.example.com/",
    );

    assert_eq!(message.link_url, "https://portal.example.com/forms/form-id");
    assert_eq!(message.title, "「Form」が復元されました");
}

#[test]
fn message_from_event_omits_internal_ids_from_fields() {
    let message = message_from_event(
        ApplicationEvent::CommentCreated {
            actor: actor(),
            form_id: "form-id".to_string(),
            form_title: "Form".to_string(),
            answer_id: "answer-id".to_string(),
            comment_id: "comment-id".to_string(),
            content: "content".to_string(),
        },
        "https://discord.com/api/webhooks/123/token".to_string(),
        "https://portal.example.com/",
    );

    assert_eq!(message.title, "「Form」にコメントが投稿されました");
    assert!(message.fields.iter().all(|field| {
        !["フォームID", "実行者ID", "回答ID", "コメントID", "メッセージID"]
            .contains(&field.name.as_str())
    }));
    assert_eq!(
        message.link_url,
        "https://portal.example.com/forms/form-id/answers/answer-id"
    );
}

#[test]
fn anonymous_answer_event_hides_actor_identity_in_the_message() {
    let message = message_from_event(
        ApplicationEvent::AnswerSubmitted {
            actor: AnswerSubmissionActor::AuthorHidden,
            form_id: "form-id".to_string(),
            form_title: "Form".to_string(),
            answer_id: "answer-id".to_string(),
            details: vec![],
        },
        "https://discord.com/api/webhooks/123/token".to_string(),
        "https://portal.example.com/",
    );

    assert!(message
        .fields
        .iter()
        .any(|field| field.name == "回答者" && field.value == "回答者は非公開です"));
    assert!(message
        .fields
        .iter()
        .all(|field| field.name != "実行者" && field.name != "実行者ID"));
}

#[test]
fn message_events_link_to_the_messages_and_list_details() {
    let event = ApplicationEvent::MessageUpdated {
        actor: actor(),
        form_id: "f".to_string(),
        form_title: "T".to_string(),
        answer_id: "a".to_string(),
        message_id: "m".to_string(),
        body: "hello".to_string(),
    };
    assert_eq!(operation_name(&event), "message_updated");
    let message = message_from_event(event, "url".to_string(), "https://p.example//");
    assert_eq!(message.link_url, "https://p.example/forms/f/answers/a/messages");
    assert_eq!(message.fields.len(), 2);
    assert_eq!(message.fields[1].value, "hello");
    let created = message_from_event(
        ApplicationEvent::FormCreated {
            actor: actor(),
            form_id: "f".to_string(),
            form_title: "T".to_string(),
            details: vec![EventDetail { name: "説明".to_string(), value: "x".to_string() }],
        },
        "url".to_string(),
        "https://p.example",
    );
    assert_eq!(created.title, "「T」が作成されました");
    assert_eq!(created.fields[0].name, "実行者");
    assert!(created.fields[0].inline);
    assert_eq!(created.fields[1].name, "説明");
}

#[test]
fn search_needs_a_query() {
    let query = SearchQuery { query: Some(NonEmptyString::try_new("word".to_owned()).unwrap()) };
    assert_eq!(required_query(query), Ok("word".to_owned()));
    assert_eq!(
        required_query(SearchQuery { query: None }),
        Err(PresentationError::QueryRejection { cause: "query is required".to_owned() })
    );
}

#[test]
fn search_engine_initialization_gate_waits_for_ready() {
    assert_eq!(initialization_gate(SearchEngineInitializationStatus::Pending), None);
    assert_eq!(initialization_gate(SearchEngineInitializationStatus::Ready), Some(true));
    assert!(!shutdown_requested(SearchEngineInitializationStatus::Ready));
}

#[test]
fn search_engine_initialization_gate_releases_on_shutdown() {
    assert_eq!(initialization_gate(SearchEngineInitializationStatus::Shutdown), Some(false));
    assert!(shutdown_requested(SearchEngineInitializationStatus::Shutdown));
    assert!(!shutdown_requested(SearchEngineInitializationStatus::Pending));
}

#[test]
fn quotas_count_against_the_user_before_the_address() {
    let ip = IpAddress {
        canonical: "203.0.113.4".to_string(),
    };
    assert_eq!(
        rate_limit_identity(
            Some("user-1".to_string()),
            ClientIpResolution::Canonical(ip.clone())
        ),
        (Some(RateLimitIdentity::User("user-1".to_string())), false)
    );
    assert_eq!(
        rate_limit_identity(None, ClientIpResolution::TcpPeer(ip.clone())),
        (Some(RateLimitIdentity::Ip(ip)), false)
    );
    assert_eq!(
        rate_limit_identity(None, ClientIpResolution::Unavailable),
        (None, true)
    );
}

#[test]
fn omitted_discord_webhook_url_changes_nothing_while_null_clears_it() {
    assert_eq!(into_discord_webhook_url(FieldUpdate::default()), None);
    assert_eq!(into_discord_webhook_url(FieldUpdate::from_present(None)), Some(None));
    assert_eq!(
        into_discord_webhook_url(FieldUpdate::from_present(Some(
            "https://discord.com/api/webhooks/123/token".to_string()
        ))),
        Some(Some("https://discord.com/api/webhooks/123/token".to_string()))
    );
}

#[test]
fn omitted_default_answer_title_changes_nothing_while_null_clears_it() {
    assert!(into_default_answer_title(FieldUpdate::default()).is_none());
    assert!(matches!(
        into_default_answer_title(FieldUpdate::from_present(None)),
        Some(None)
    ));
    let title = NonEmptyString::try_new("回答".to_string()).unwrap();
    let set = into_default_answer_title(FieldUpdate::from_present(Some(title)));
    assert_eq!(set.unwrap().unwrap().into_inner(), "回答".to_string());
}

#[test]
fn disabled_middleware_passes_a_request_without_a_token() {
    assert_eq!(
        turnstile_step(RequestMethod::Post, "/session", false, None),
        TurnstileStep::Pass
    );
}

#[test]
fn enabled_middleware_validates_without_consuming_the_body() {
    assert_eq!(
        turnstile_step(RequestMethod::Post, "/session", true, Some("token")),
        TurnstileStep::Verify(TurnstileAction::SessionCreate)
    );
    assert_eq!(
        turnstile_step(RequestMethod::Post, "/session", true, None),
        TurnstileStep::Forbidden
    );
    assert_eq!(
        turnstile_step(RequestMethod::Get, "/forms", true, None),
        TurnstileStep::Pass
    );
}

#[test]
fn settings_changes_follow_the_request_field_by_field() {
    let none = settings_changes(None);
    assert!(none.discord_webhook_url.is_none());
    assert!(none.default_answer_title.is_none());
    assert!(none.visibility.is_none());
    assert!(none.allow_temporary_answers.is_none());
    assert!(none.answer_visibility.is_none());
    assert!(none.acceptance_period.is_none());

    let form_only = settings_changes(Some(FormSettingsRequest {
        discord_webhook_url: FieldUpdate::Clear,
        visibility: Some(FormVisibility::Private),
        allow_temporary_answers: Some(true),
        answer_settings: None,
    }));
    assert_eq!(form_only.discord_webhook_url, Some(None));
    assert_eq!(form_only.visibility, Some(FormVisibility::Private));
    assert_eq!(form_only.allow_temporary_answers, Some(true));
    assert!(form_only.default_answer_title.is_none());

    let with_answers = settings_changes(Some(FormSettingsRequest {
        discord_webhook_url: FieldUpdate::Unchanged,
        visibility: None,
        allow_temporary_answers: None,
        answer_settings: Some(AnswerSettingsRequest {
            default_answer_title: FieldUpdate::SetTo(NonEmptyString::try_new("回答".to_string()).unwrap()),
            visibility: Some(seichi_portal::schemas::AnswerVisibility::Public),
            acceptance_period: None,
        }),
    }));
    assert!(with_answers.discord_webhook_url.is_none());
    assert_eq!(
        with_answers.default_answer_title.map(|t| t.map(|t| t.into_inner())),
        Some(Some("回答".to_string()))
    );
    assert_eq!(
        with_answers.answer_visibility,
        Some(seichi_portal::schemas::AnswerVisibility::Public)
    );
}
