use seichi_portal::redmine::answer_lookup::{AnswerLookup, PortalAnswer};
use seichi_portal::redmine::api_client::{
    accept_chunk, after_attempt, api_base_url, check_announced_size, check_downloaded_size, download_content_type,
    download_path, request_url, validate_portal_settings, validate_redmine_settings,
    AttemptOutcome, ClientSettingsError, DownloadError, RetryStep,
};
use seichi_portal::redmine::cli::{parse_arguments, publication_for_tracker, ArgumentError, Mode, Report};
use seichi_portal::redmine::inquiry::InquiryClassification;
use seichi_portal::redmine::issue_input::{build_issue_input, parse_timestamp};
use seichi_portal::redmine::model::{
    AttachmentUploadCandidate, ImportError, IssueStub, NamedId, PortalComment, RedmineAttachment,
    RedmineIssue, RedmineIssueRelation, RedmineJournal, RedmineUser, TimestampField,
};
use seichi_portal::redmine::stubs::{IssueListItem, IssuePage, StubCollector};
use seichi_portal::redmine::triage::{
    check_fetched_issue_id, check_issue_detail, issue_classification, plan_relations, triage_stub, DetailMismatch,
    RelationNoteKind, StubVerdict,
};
use seichi_portal::redmine::upload_groups::uploads_by_comment;
use seichi_portal::redmine::urls::redmine_attachment_path;
use seichi_portal::schemas::{AnswerPublication, AnswerStatus};

fn named(id: i64, name: &str) -> NamedId {
    NamedId {
        id,
        name: name.to_string(),
    }
}

fn issue(journals: Vec<RedmineJournal>) -> RedmineIssue {
    RedmineIssue {
        id: 1,
        project: named(1, "project"),
        tracker: named(1, "不具合"),
        subject: "subject".to_string(),
        description: None,
        author: RedmineUser {
            id: 2,
            name: "author".to_string(),
        },
        created_on: "2024-01-02T03:04:05.123456Z".to_string(),
        status: named(1, "New"),
        journals,
        attachments: Vec::new(),
        custom_fields: Vec::new(),
    }
}

fn journal(id: i64, user: Option<RedmineUser>, notes: Option<&str>, created_on: &str) -> RedmineJournal {
    RedmineJournal {
        id,
        user,
        notes: notes.map(str::to_string),
        created_on: created_on.to_string(),
        details: Vec::new(),
    }
}

fn attachment(id: i64, filename: &str, filesize: Option<u64>, content_url: Option<&str>) -> RedmineAttachment {
    RedmineAttachment {
        id,
        filename: filename.to_string(),
        filesize,
        content_type: None,
        content_url: content_url.map(str::to_string),
        author: None,
        created_on: None,
    }
}

fn stub(id: i64, tracker_id: i64) -> IssueStub {
    IssueStub {
        project_id: 1,
        id,
        tracker_id,
        tracker_name: "不具合".to_string(),
        relations: Vec::new(),
    }
}

fn relation(id: i64, issue_id: i64, issue_to_id: i64) -> RedmineIssueRelation {
    RedmineIssueRelation {
        id,
        issue_id,
        issue_to_id,
        relation_type: "relates".to_string(),
    }
}

#[test]
fn attachment_path_rejects_an_external_origin() {
    assert_eq!(
        redmine_attachment_path(
            "https://redmine.example.test",
            20,
            Some("https://redmine.example.test/attachments/download/20/file.txt")
        )
        .unwrap(),
        "https://redmine.example.test/attachments/download/20/file.txt"
    );
    assert!(
        redmine_attachment_path(
            "https://redmine.example.test",
            20,
            Some("https://attacker.example.test/file.txt")
        )
        .is_err()
    );
}

#[test]
fn attachment_path_without_content_url_uses_the_download_route() {
    assert_eq!(
        redmine_attachment_path("https://redmine.example.test", 42, None).unwrap(),
        "/attachments/download/42"
    );
    assert_eq!(
        redmine_attachment_path("https://redmine.example.test", 42, Some("   ")).unwrap(),
        "/attachments/download/42"
    );
    assert_eq!(
        redmine_attachment_path("not a url", 42, Some("https://redmine.example.test/a")),
        Err(ImportError::InvalidBaseUrl)
    );
    assert_eq!(
        redmine_attachment_path("https://redmine.example.test", 42, Some("no url")),
        Err(ImportError::InvalidAttachmentUrl { attachment_id: 42 })
    );
    assert_eq!(
        redmine_attachment_path(
            "https://redmine.example.test",
            42,
            Some("https://redmine.example.test:8443/a")
        ),
        Err(ImportError::ForeignAttachmentUrl { attachment_id: 42 })
    );
}

#[test]
fn build_issue_input_skips_empty_journals_and_normalizes_timestamps() {
    let issue = issue(vec![
        journal(10, None, Some("   "), "not-a-date"),
        journal(
            11,
            Some(RedmineUser {
                id: 3,
                name: "journal author".to_string(),
            }),
            Some("notes"),
            "2024-01-02T03:04:06.654321Z",
        ),
    ]);

    let built = build_issue_input(issue, AnswerStatus::InProgress, Vec::new()).unwrap();

    assert_eq!(built.skipped_empty_journal_ids, vec![10]);
    assert_eq!(
        parse_timestamp("2024-01-02T03:04:05.123456Z", TimestampField::IssueCreatedOn)
            .unwrap()
            .nanos,
        0
    );
}

#[test]
fn built_issue_keeps_the_journal_comments_in_order() {
    let issue = issue(vec![
        journal(
            11,
            Some(RedmineUser {
                id: 3,
                name: "journal author".to_string(),
            }),
            Some("notes"),
            "2024-01-02T03:04:06.654321Z",
        ),
        journal(12, None, None, "2024-01-02T03:04:07Z"),
    ]);
    let built = build_issue_input(
        issue,
        AnswerStatus::Completed,
        vec![("title".to_string(), "subject".to_string())],
    )
    .unwrap();
    assert_eq!(built.skipped_empty_journal_ids, vec![12]);
    assert_eq!(built.input.issue_id, 1);
    assert_eq!(built.input.author.id, Some(2));
    assert_eq!(built.input.author.display_name, "author");
    assert_eq!(built.input.created_at.seconds, 1_704_164_645);
    assert_eq!(built.input.created_at.nanos, 0);
    assert_eq!(built.input.status, AnswerStatus::Completed);
    assert_eq!(built.input.journals.len(), 1);
    assert_eq!(built.input.journals[0].id, 11);
    assert_eq!(built.input.journals[0].notes, "notes");
    assert_eq!(built.input.journals[0].author.display_name, "journal author");
    assert_eq!(built.input.journals[0].created_at.seconds, 1_704_164_646);
}

#[test]
fn built_issue_refuses_journals_without_author_or_date() {
    let without_author = issue(vec![journal(13, None, Some("notes"), "2024-01-02T03:04:07Z")]);
    assert_eq!(
        build_issue_input(without_author, AnswerStatus::Unaddressed, Vec::new()).unwrap_err(),
        ImportError::JournalWithoutAuthor { journal_id: 13 }
    );
    let bad_user = issue(vec![journal(
        14,
        Some(RedmineUser {
            id: 0,
            name: "nobody".to_string(),
        }),
        Some("notes"),
        "2024-01-02T03:04:07Z",
    )]);
    assert_eq!(
        build_issue_input(bad_user, AnswerStatus::Unaddressed, Vec::new()).unwrap_err(),
        ImportError::InvalidUserId { user_id: 0 }
    );
    let bad_date = issue(vec![journal(
        15,
        Some(RedmineUser {
            id: 3,
            name: "someone".to_string(),
        }),
        Some("notes"),
        "yesterday",
    )]);
    assert_eq!(
        build_issue_input(bad_date, AnswerStatus::Unaddressed, Vec::new()).unwrap_err(),
        ImportError::InvalidTimestamp {
            field: TimestampField::JournalCreatedOn,
            value: "yesterday".to_string()
        }
    );
    let mut bad_issue = issue(Vec::new());
    bad_issue.created_on = "2024-13-01T00:00:00Z".to_string();
    assert_eq!(
        build_issue_input(bad_issue, AnswerStatus::Unaddressed, Vec::new()).unwrap_err(),
        ImportError::InvalidTimestamp {
            field: TimestampField::IssueCreatedOn,
            value: "2024-13-01T00:00:00Z".to_string()
        }
    );
}

#[test]
fn timestamps_with_an_offset_are_read_as_utc() {
    let t = parse_timestamp("2024-01-02T12:04:05+09:00", TimestampField::IssueCreatedOn).unwrap();
    assert_eq!(t.seconds, 1_704_164_645);
    assert_eq!(t.nanos, 0);
}

#[test]
fn mode_and_config_path_come_from_the_command_line() {
    let args = vec!["import".to_string(), "--config".to_string(), "a.json".to_string()];
    let (mode, path) = parse_arguments(&args, Some("env.json".to_string())).unwrap();
    assert_eq!(mode, Mode::Import);
    assert_eq!(path, "a.json");
    let (mode, path) = parse_arguments(&vec!["plan".to_string()], Some("env.json".to_string())).unwrap();
    assert_eq!(mode, Mode::Plan);
    assert_eq!(path, "env.json");
    let (mode, path) = parse_arguments(&vec!["verify".to_string()], None).unwrap();
    assert_eq!(mode, Mode::Verify);
    assert_eq!(path, "server/redmine-importer/config/redmine-import.json");
    assert_eq!(parse_arguments(&Vec::new(), None).unwrap_err(), ArgumentError::MissingMode);
    assert_eq!(
        parse_arguments(&vec!["run".to_string()], None).unwrap_err(),
        ArgumentError::UnknownMode
    );
    assert_eq!(
        parse_arguments(&vec!["plan".to_string(), "--config".to_string()], None).unwrap_err(),
        ArgumentError::MissingConfigPath
    );
    assert_eq!(
        parse_arguments(&vec!["plan".to_string(), "--verbose".to_string()], None).unwrap_err(),
        ArgumentError::UnknownArgument {
            argument: "--verbose".to_string()
        }
    );
    assert_eq!(Mode::parse("plan"), Ok(Mode::Plan));
}

#[test]
fn report_lists_warnings_then_errors_then_the_summary() {
    let mut report = Report::default();
    report.error("broken".to_string());
    report.warning("odd".to_string());
    report.warning("odder".to_string());
    assert_eq!(
        report.lines(),
        vec![
            "WARNING: odd".to_string(),
            "WARNING: odder".to_string(),
            "ERROR: broken".to_string(),
            "report: 1 error(s), 2 warning(s)".to_string(),
        ]
    );
    assert_eq!(Report::default().lines(), vec!["report: 0 error(s), 0 warning(s)".to_string()]);
}

#[test]
fn only_the_public_tracker_publishes_answers() {
    assert_eq!(publication_for_tracker(19), AnswerPublication::Public);
    assert_eq!(publication_for_tracker(1), AnswerPublication::Private);
}

#[test]
fn client_urls_and_settings() {
    assert_eq!(api_base_url("https://portal.example.test///").unwrap(), "https://portal.example.test");
    assert_eq!(api_base_url("///").unwrap_err(), ClientSettingsError::EmptyBaseUrl);
    assert_eq!(api_base_url(" / ").unwrap(), " / ");
    assert_eq!(request_url("https://a.test", "/issues.json"), "https://a.test/issues.json");
    assert_eq!(request_url("https://a.test", "https://b.test/x"), "https://b.test/x");
    assert_eq!(validate_redmine_settings("https://a.test", "key", &vec![1, 2]), Ok(()));
    assert_eq!(
        validate_redmine_settings("https://a.test", " ", &vec![1]),
        Err(ClientSettingsError::EmptyCredential)
    );
    assert_eq!(
        validate_redmine_settings("https://a.test", "key", &Vec::new()),
        Err(ClientSettingsError::NoProjects)
    );
    assert_eq!(
        validate_redmine_settings("https://a.test", "key", &vec![1, 0]),
        Err(ClientSettingsError::NonPositiveProjectId)
    );
    assert_eq!(
        validate_redmine_settings("https://a.test", "key", &vec![3, 3]),
        Err(ClientSettingsError::DuplicateProjectId)
    );
    assert_eq!(validate_portal_settings("https://a.test", "session"), Ok(()));
    assert_eq!(
        validate_portal_settings("", "session"),
        Err(ClientSettingsError::EmptyBaseUrl)
    );
}

#[test]
fn failed_requests_are_retried_with_backoff_until_the_last_attempt() {
    let ok = AttemptOutcome::Responded {
        status: 200,
        retry_after_seconds: None,
    };
    assert_eq!(after_attempt(0, 3, ok, 100), RetryStep::Succeed);
    assert_eq!(
        after_attempt(2, 3, AttemptOutcome::TransportError, 100),
        RetryStep::RetryAfterMillis(400)
    );
    assert_eq!(after_attempt(3, 3, AttemptOutcome::TransportError, 100), RetryStep::Fail);
    let busy = AttemptOutcome::Responded {
        status: 429,
        retry_after_seconds: Some(7),
    };
    assert_eq!(after_attempt(0, 3, busy, 100), RetryStep::RetryAfterSeconds(7));
    let bad = AttemptOutcome::Responded {
        status: 400,
        retry_after_seconds: None,
    };
    assert_eq!(after_attempt(0, 3, bad, 100), RetryStep::Fail);
}

#[test]
fn downloads_stay_within_their_size() {
    assert_eq!(accept_chunk(10, 5, 15), Ok(15));
    assert_eq!(accept_chunk(10, 6, 15), Err(DownloadError::TooLarge));
    assert_eq!(download_content_type(Some("image/png".to_string())), "image/png");
    assert_eq!(download_content_type(Some(String::new())), "application/octet-stream");
    assert_eq!(download_content_type(None), "application/octet-stream");
    let big = attachment(5, "a.bin", Some(100), None);
    assert_eq!(
        download_path("https://r.test", &big, 99),
        Err(ImportError::AttachmentTooLarge { attachment_id: 5 })
    );
    assert_eq!(download_path("https://r.test", &big, 100).unwrap(), "/attachments/download/5");
    assert_eq!(
        download_path("https://r.test", &attachment(0, "a", None, None), 100),
        Err(ImportError::InvalidAttachmentId { attachment_id: 0 })
    );
    assert_eq!(check_downloaded_size(&big, &vec![0u8; 100]), Ok(()));
    assert_eq!(
        check_downloaded_size(&big, &vec![0u8; 99]),
        Err(ImportError::FilesizeMismatch { attachment_id: 5 })
    );
}

fn list_item(id: i64, project_id: i64) -> IssueListItem {
    IssueListItem {
        id,
        project: named(project_id, "project"),
        tracker: named(1, "不具合"),
        relations: Vec::new(),
    }
}

#[test]
fn stub_collector_pages_through_projects_in_id_order() {
    let mut collector = StubCollector::new(vec![1, 2]);
    let next = collector
        .accept_issue_page(
            1,
            0,
            IssuePage {
                issues: vec![list_item(30, 1), list_item(10, 1)],
                total_count: 3,
                offset: 0,
            },
        )
        .unwrap();
    assert_eq!(next, Some(2));
    let next = collector
        .accept_issue_page(
            1,
            2,
            IssuePage {
                issues: vec![list_item(20, 2)],
                total_count: 3,
                offset: 2,
            },
        )
        .unwrap();
    assert_eq!(next, None);
    assert_eq!(
        collector.accept_issue_page(
            2,
            0,
            IssuePage {
                issues: vec![list_item(40, 3)],
                total_count: 1,
                offset: 0,
            },
        ),
        Err(ImportError::IssueOutsideProjects {
            project_id: 2,
            issue_id: 40,
            issue_project_id: 3
        })
    );
    let ids = collector.into_stubs().into_iter().map(|s| s.id).collect::<Vec<_>>();
    assert_eq!(ids, vec![10, 20, 30]);
}

#[test]
fn stub_collector_refuses_a_page_from_the_wrong_offset() {
    let mut collector = StubCollector::new(vec![1]);
    assert_eq!(
        collector.accept_issue_page(
            1,
            0,
            IssuePage {
                issues: vec![list_item(1, 1)],
                total_count: 2,
                offset: 1,
            },
        ),
        Err(ImportError::PageOffsetMismatch {
            project_id: 1,
            requested: 0,
            received: 1
        })
    );
}

#[test]
fn answer_lookup_finds_the_single_answer_of_an_issue() {
    let mut lookup = AnswerLookup::new(7);
    lookup
        .accept_page(&[
            PortalAnswer {
                id: 1,
                redmine_issue_id: Some(6),
            },
            PortalAnswer {
                id: 2,
                redmine_issue_id: None,
            },
        ])
        .unwrap();
    lookup
        .accept_page(&[PortalAnswer {
            id: 3,
            redmine_issue_id: Some(7),
        }])
        .unwrap();
    assert_eq!(lookup.finish(), Ok(3));

    assert_eq!(
        AnswerLookup::new(7).finish(),
        Err(ImportError::NoAnswerForIssue { issue_id: 7 })
    );

    let mut twice = AnswerLookup::new(7);
    twice
        .accept_page(&[PortalAnswer {
            id: 3,
            redmine_issue_id: Some(7),
        }])
        .unwrap();
    assert_eq!(
        twice.accept_page(&[PortalAnswer {
            id: 4,
            redmine_issue_id: Some(7),
        }]),
        Err(ImportError::SeveralAnswersForIssue { issue_id: 7 })
    );
}

fn candidate(journal_id: i64, filename: &str) -> AttachmentUploadCandidate {
    AttachmentUploadCandidate {
        journal_id,
        attachment: attachment(1, filename, None, None),
        content_type: "text/plain".to_string(),
        content: filename.as_bytes().to_vec(),
    }
}

fn comment(id: &str, journal_id: Option<i64>) -> PortalComment {
    PortalComment {
        id: id.to_string(),
        redmine_journal_id: journal_id,
        attachments: Vec::new(),
    }
}

#[test]
fn uploads_are_gathered_by_comment_in_comment_id_order() {
    let comments = vec![comment("b-comment", Some(1)), comment("a-comment", Some(2))];
    let groups = uploads_by_comment(
        &comments,
        vec![candidate(1, "one.txt"), candidate(2, "two.txt"), candidate(1, "three.txt")],
    )
    .unwrap();
    assert_eq!(groups.len(), 2);
    assert_eq!(groups[0].0, "a-comment");
    assert_eq!(groups[0].1.len(), 1);
    assert_eq!(groups[0].1[0].file_name, "two.txt");
    assert_eq!(groups[1].0, "b-comment");
    let names = groups[1].1.iter().map(|u| u.file_name.clone()).collect::<Vec<_>>();
    assert_eq!(names, vec!["one.txt".to_string(), "three.txt".to_string()]);
    assert_eq!(groups[1].1[0].content, b"one.txt".to_vec());

    assert_eq!(
        uploads_by_comment(&comments, vec![candidate(3, "x")]).unwrap_err(),
        ImportError::NoCommentForJournal { journal_id: 3 }
    );
}

#[test]
fn listed_issues_are_imported_only_from_known_trackers() {
    assert_eq!(triage_stub(1, "不具合", 10), StubVerdict::Import);
    assert_eq!(triage_stub(7, "TT申請", 10), StubVerdict::Excluded);
    assert_eq!(
        triage_stub(7, "other", 10),
        StubVerdict::TrackerNameMismatch {
            expected: "TT申請".to_string()
        }
    );
    assert_eq!(
        triage_stub(1, "other", 10),
        StubVerdict::TrackerNameMismatch {
            expected: "不具合".to_string()
        }
    );
    assert_eq!(triage_stub(99, "unknown", 10), StubVerdict::UnknownTracker);
    assert_eq!(triage_stub(1, "不具合", 0), StubVerdict::InvalidIssueId);
}

#[test]
fn issue_details_have_to_agree_with_the_list() {
    let listed = stub(1, 1);
    let detail = issue(Vec::new());
    assert_eq!(check_issue_detail(&listed, &detail, "project"), None);
    assert_eq!(
        check_issue_detail(&listed, &detail, "other project"),
        Some(DetailMismatch::Project)
    );
    let other_tracker = stub(1, 2);
    assert_eq!(
        check_issue_detail(&other_tracker, &detail, "project"),
        Some(DetailMismatch::Tracker)
    );
    assert_eq!(
        issue_classification(1, "MOD「foo」を入れたい", None),
        InquiryClassification::Generic
    );
}

#[test]
fn relations_become_distinct_ordered_pairs_between_prepared_issues() {
    let stubs = vec![stub(1, 1), stub(2, 2), stub(3, 7), stub(4, 1)];
    let relations = vec![
        relation(100, 2, 1),
        relation(101, 1, 2),
        relation(102, 1, 3),
        relation(103, 1, 4),
    ];
    let plan = plan_relations(&stubs, &vec![1, 2], &relations);
    assert_eq!(plan.pairs, vec![(1, 2)]);
    let notes = plan
        .notes
        .iter()
        .map(|(kind, r)| (*kind, r.id))
        .collect::<Vec<_>>();
    assert_eq!(
        notes,
        vec![
            (RelationNoteKind::DuplicatePair, 101),
            (RelationNoteKind::NotBetweenTargets, 102),
            (RelationNoteKind::EndpointNotPrepared, 103),
        ]
    );
}

#[test]
fn announced_sizes_and_fetched_ids_are_checked() {
    assert_eq!(check_announced_size(Some(11), 10), Err(DownloadError::TooLarge));
    assert_eq!(check_announced_size(Some(10), 10), Ok(()));
    assert_eq!(check_announced_size(None, 10), Ok(()));
    assert_eq!(check_fetched_issue_id(5, 5), Ok(()));
    assert_eq!(
        check_fetched_issue_id(5, 6),
        Err(ImportError::IssueIdMismatch {
            requested: 5,
            received: 6
        })
    );
}
