use std::time::Duration;

use seichi_portal::redmine::associate::{associate_attachments, associate_attachments_with_fallback};
use seichi_portal::redmine::attachment_index::index_attachment_journals;
use seichi_portal::redmine::extract::{
    extract_ipv4_addresses, extract_mod_name, first_url, is_unfilled_author_value,
};
use seichi_portal::redmine::inquiry::{classify_inquiry, InquiryClassification, InquiryRoute};
use seichi_portal::redmine::model::{
    AttachmentUploadCandidate, AttachmentWarning, CustomFieldValue, ImportError, IssueStub,
    PortalComment, PortalCommentAttachment, RedmineAttachment, RedmineCustomField,
    RedmineIssueRelation, RedmineJournal, RedmineJournalDetail,
};
use seichi_portal::redmine::paging::{
    is_retryable_status, next_page_offset, positive_redmine_user_id, retry_delay,
    truncate_for_error,
};
use seichi_portal::redmine::questions::{custom_field_value, redmine_author_display_name};
use seichi_portal::redmine::relations::unique_issue_relations;
use seichi_portal::redmine::uploads::select_attachment_uploads;

const CONTACT_CUSTOM_FIELD_ID: i64 = 1;
const ID_CUSTOM_FIELD_ID: i64 = 2;
const MAX_COMMENT_ATTACHMENT_SIZE: u64 = 10 * 1024 * 1024;

fn attachment(id: i64, filename: &str, filesize: Option<u64>) -> RedmineAttachment {
    RedmineAttachment {
        id,
        filename: filename.to_owned(),
        filesize,
        content_type: None,
        content_url: None,
        author: None,
        created_on: None,
    }
}

fn journal(id: i64, notes: &str, details: Vec<RedmineJournalDetail>) -> RedmineJournal {
    RedmineJournal {
        id,
        user: None,
        notes: Some(notes.to_owned()),
        created_on: "2024-01-02T03:04:05Z".to_owned(),
        details,
    }
}

fn attachment_detail(name: &str, new_value: Option<&str>) -> RedmineJournalDetail {
    RedmineJournalDetail {
        property: "attachment".to_owned(),
        name: name.to_owned(),
        new_value: new_value.map(str::to_owned),
    }
}

#[test]
fn pagination_stops_at_total_count() {
    assert_eq!(next_page_offset(0, 3, 3).unwrap(), None);
    assert_eq!(next_page_offset(0, 4, 3).unwrap(), Some(3));
    assert_eq!(next_page_offset(3, 4, 1).unwrap(), None);
}

#[test]
fn pagination_rejects_empty_page_before_total_count() {
    assert!(next_page_offset(0, 1, 0).is_err());
}

#[test]
fn pagination_errors_name_their_cause() {
    assert_eq!(
        next_page_offset(0, 1, 0),
        Err(ImportError::EmptyPageBeforeEnd { offset: 0, total_count: 1 })
    );
    assert_eq!(next_page_offset(5, 5, 0), Ok(None));
    assert_eq!(next_page_offset(0, 0, 2), Err(ImportError::InvalidTotalCount));
    assert_eq!(next_page_offset(u64::MAX, u64::MAX, 1), Err(ImportError::OffsetOverflow));
}

#[test]
fn retry_delay_is_exponential_and_saturates_the_shift() {
    assert_eq!(retry_delay(0, 100), Duration::from_millis(100));
    assert_eq!(retry_delay(3, 100), Duration::from_millis(800));
    assert_eq!(retry_delay(20, 100), Duration::from_millis(102_400));
}

#[test]
fn retryable_statuses_include_rate_limit_and_server_errors() {
    assert!(is_retryable_status(429));
    assert!(is_retryable_status(500));
    assert!(!is_retryable_status(400));
}

#[test]
fn user_ids_and_error_bodies() {
    assert_eq!(positive_redmine_user_id(3), Some(3));
    assert_eq!(positive_redmine_user_id(0), None);
    let long = "あ".repeat(600);
    assert_eq!(truncate_for_error(&long).chars().count(), 512);
    assert_eq!(truncate_for_error("short"), "short");
}

#[test]
fn inquiry_classification_requires_an_explicit_or_high_confidence_marker() {
    assert_eq!(
        classify_inquiry("[user] Modの使用可否 Sodium", None),
        InquiryClassification::Mod
    );
    assert_eq!(
        classify_inquiry("その他の理由によりサーバーにログインできない", None),
        InquiryClassification::Login
    );
    assert_eq!(classify_inquiry("BAN解除申立", None), InquiryClassification::Appeal);
    assert_eq!(
        classify_inquiry("その他お問い合わせ", Some("経験値のオーバーフローが発生しました")),
        InquiryClassification::ExperienceOverflow
    );
    assert_eq!(
        classify_inquiry("ログインについての質問", Some("Modを使っています")),
        InquiryClassification::Generic
    );
    assert_eq!(
        classify_inquiry(
            "その他お問い合わせ",
            Some(
                "経験値について相談したあと、これは今回の相談とは別の長い説明文であり、さらに別の話題としてオーバーフローという言葉を見ました"
            )
        ),
        InquiryClassification::Generic
    );
}

#[test]
fn classifications_name_their_routes() {
    assert_eq!(InquiryClassification::Generic.special_route(), None);
    assert_eq!(InquiryClassification::Mod.special_route(), Some(InquiryRoute::Mod));
    assert_eq!(InquiryRoute::ExperienceOverflow.name(), "experience_overflow");
    assert_eq!(InquiryRoute::Appeal.name(), "appeal");
}

#[test]
fn special_question_sources_keep_original_content_and_use_safe_fallbacks() {
    assert_eq!(extract_mod_name("[user] Modの使用可否 Sodium", "本文"), "Sodium");
    assert_eq!(
        extract_mod_name("[user] Mod使用可否のお問い合わせ", "本文"),
        "（件名から特定できず）"
    );
    assert_eq!(
        first_url("件名", "詳しくは https://example.com/mod を確認してください。"),
        "https://example.com/mod"
    );
    assert_eq!(first_url("件名", "URLはありません"), "（URLの記載なし）");
    assert_eq!(
        extract_ipv4_addresses("接続元 192.168.0.10", "別のIP 8.8.8.8"),
        "192.168.0.10\n8.8.8.8"
    );
}

#[test]
fn ipv4_extraction_skips_invalid_and_repeated_addresses() {
    assert_eq!(
        extract_ipv4_addresses("256.1.1.1 と 10.0.0.1", "10.0.0.1 1.2.3"),
        "10.0.0.1"
    );
    assert_eq!(extract_ipv4_addresses("", ""), "");
}

#[test]
fn bug_type_defaults_to_in_game_and_relations_are_deduplicated_by_id() {
    let relation = RedmineIssueRelation {
        id: 1,
        issue_id: 10,
        issue_to_id: 11,
        relation_type: "relates".to_string(),
    };
    let reverse_relation = RedmineIssueRelation {
        id: 1,
        issue_id: 11,
        issue_to_id: 10,
        relation_type: "relates".to_string(),
    };
    let stubs = vec![
        IssueStub {
            project_id: 3,
            id: 10,
            tracker_id: 4,
            tracker_name: "お問い合わせ".to_string(),
            relations: vec![relation.clone()],
        },
        IssueStub {
            project_id: 3,
            id: 11,
            tracker_id: 9,
            tracker_name: "不具合報告".to_string(),
            relations: vec![reverse_relation],
        },
    ];
    assert_eq!(unique_issue_relations(&stubs).unwrap().len(), 1);
}

#[test]
fn relations_are_refused_when_invalid_or_conflicting() {
    let stub = |relations| IssueStub {
        project_id: 3,
        id: 10,
        tracker_id: 4,
        tracker_name: "お問い合わせ".to_string(),
        relations,
    };
    let relation = |id, from, to, kind: &str| RedmineIssueRelation {
        id,
        issue_id: from,
        issue_to_id: to,
        relation_type: kind.to_string(),
    };
    assert_eq!(
        unique_issue_relations(&[stub(vec![relation(0, 1, 2, "relates")])]),
        Err(ImportError::InvalidRelation { relation_id: 0 })
    );
    assert_eq!(
        unique_issue_relations(&[stub(vec![relation(5, 2, 2, "relates")])]),
        Err(ImportError::SelfReferencingRelation { relation_id: 5 })
    );
    assert_eq!(
        unique_issue_relations(&[stub(vec![
            relation(5, 1, 2, "relates"),
            relation(5, 1, 2, "blocks")
        ])]),
        Err(ImportError::ConflictingRelation { relation_id: 5 })
    );
    let ordered = unique_issue_relations(&[stub(vec![
        relation(9, 4, 3, "relates"),
        relation(2, 1, 2, "blocks"),
    ])])
    .unwrap();
    assert_eq!(ordered.iter().map(|r| r.id).collect::<Vec<_>>(), vec![2, 9]);
    assert_eq!((ordered[1].issue_id, ordered[1].issue_to_id), (3, 4));
}

#[test]
fn attachment_details_are_associated_with_non_empty_journals() {
    let journal = RedmineJournal {
        id: 10,
        user: None,
        notes: Some("comment".to_owned()),
        created_on: "2024-01-02T03:04:05Z".to_owned(),
        details: vec![RedmineJournalDetail {
            property: "attachment".to_owned(),
            name: "20".to_owned(),
            new_value: Some("file.txt".to_owned()),
        }],
    };
    let attachment = RedmineAttachment {
        id: 20,
        filename: "file.txt".to_owned(),
        filesize: Some(3),
        content_type: Some("text/plain".to_owned()),
        content_url: Some("https://example.test/file.txt".to_owned()),
        author: None,
        created_on: None,
    };

    let associations = associate_attachments(&[journal], &[attachment]).unwrap();
    assert_eq!(associations.len(), 1);
    assert_eq!(associations[0].journal_id, 10);
    assert_eq!(associations[0].attachment.id, 20);
}

#[test]
fn attachment_association_rejects_empty_journals_and_unmapped_files() {
    let empty_journal = RedmineJournal {
        id: 10,
        user: None,
        notes: Some("  ".to_owned()),
        created_on: "2024-01-02T03:04:05Z".to_owned(),
        details: vec![RedmineJournalDetail {
            property: "attachment".to_owned(),
            name: "20".to_owned(),
            new_value: None,
        }],
    };
    let attachment = RedmineAttachment {
        id: 20,
        filename: "file.txt".to_owned(),
        filesize: None,
        content_type: None,
        content_url: None,
        author: None,
        created_on: None,
    };

    assert!(associate_attachments(&[empty_journal], &[attachment]).is_err());
    assert!(associate_attachments(
        &[],
        &[RedmineAttachment {
            id: 20,
            filename: "file.txt".to_owned(),
            filesize: None,
            content_type: None,
            content_url: None,
            author: None,
            created_on: None,
        },]
    )
    .is_err());
}

#[test]
fn attachment_association_errors_name_their_cause() {
    assert_eq!(
        associate_attachments(
            &[journal(10, "  ", vec![attachment_detail("20", None)])],
            &[attachment(20, "file.txt", None)]
        ),
        Err(ImportError::AttachmentOnEmptyJournal { attachment_id: 20, journal_id: 10 })
    );
    assert_eq!(
        associate_attachments(&[], &[attachment(20, "file.txt", None)]),
        Err(ImportError::AttachmentWithoutJournal { attachment_id: 20 })
    );
    assert_eq!(
        associate_attachments(
            &[journal(10, "note", vec![attachment_detail("20", Some("other.txt"))])],
            &[attachment(20, "file.txt", None)]
        ),
        Err(ImportError::AttachmentFilenameMismatch {
            attachment_id: 20,
            detail_filename: "other.txt".to_owned(),
            attachment_filename: "file.txt".to_owned(),
        })
    );
    assert_eq!(
        associate_attachments(
            &[
                journal(10, "a", vec![attachment_detail("20", None)]),
                journal(11, "b", vec![attachment_detail("20", None)])
            ],
            &[attachment(20, "file.txt", None)]
        ),
        Err(ImportError::AttachmentInSeveralJournals {
            attachment_id: 20,
            first_journal_id: 10,
            second_journal_id: 11,
        })
    );
    assert_eq!(
        associate_attachments(
            &[journal(10, "a", vec![attachment_detail("x", None)])],
            &[]
        ),
        Err(ImportError::AttachmentDetailNotAnId { journal_id: 10, name: "x".to_owned() })
    );
}

#[test]
fn attachment_journals_are_indexed_by_attachment() {
    let index = index_attachment_journals(&[
        journal(10, "a", vec![attachment_detail("21", None)]),
        journal(11, "b", vec![attachment_detail("20", None)]),
    ])
    .unwrap();
    assert_eq!(index.get(&20), Some(&11));
    assert_eq!(index.get(&21), Some(&10));
    assert_eq!(index.len(), 2);
}

#[test]
fn attachment_association_falls_back_across_non_empty_journals() {
    let result = associate_attachments_with_fallback(
        &[
            journal(10, "  ", Vec::new()),
            RedmineJournal {
                id: 11,
                user: None,
                notes: Some("comment".to_owned()),
                created_on: "2024-01-02T03:04:06Z".to_owned(),
                details: Vec::new(),
            },
            RedmineJournal {
                id: 12,
                user: None,
                notes: Some("another comment".to_owned()),
                created_on: "2024-01-02T03:04:07Z".to_owned(),
                details: Vec::new(),
            },
        ],
        &[attachment(20, "file.txt", None), attachment(21, "another.txt", None)],
    )
    .unwrap();

    assert_eq!(result.associations[0].journal_id, 11);
    assert_eq!(result.associations[1].journal_id, 12);
    assert_eq!(result.warnings.len(), 2);
}

#[test]
fn fallback_without_any_note_warns_for_each_attachment() {
    let result = associate_attachments_with_fallback(
        &[journal(10, "", Vec::new())],
        &[attachment(20, "file.txt", None)],
    )
    .unwrap();
    assert!(result.associations.is_empty());
    assert_eq!(
        result.warnings,
        vec![AttachmentWarning::NoJournalWithNotes { attachment_id: 20 }]
    );
}

fn upload_candidate(id: i64, filename: &str) -> AttachmentUploadCandidate {
    AttachmentUploadCandidate {
        journal_id: 10,
        attachment: RedmineAttachment {
            id,
            filename: filename.to_owned(),
            filesize: Some(3),
            content_type: None,
            content_url: None,
            author: None,
            created_on: None,
        },
        content_type: "text/plain".to_owned(),
        content: b"abc".to_vec(),
    }
}

fn portal_comment() -> PortalComment {
    PortalComment {
        id: "00000000-0000-0000-0000-000000000001".to_owned(),
        redmine_journal_id: Some(10),
        attachments: vec![
            PortalCommentAttachment { file_name: "already.txt".to_owned(), size: 3 },
            PortalCommentAttachment { file_name: "same-name.txt".to_owned(), size: 3 },
        ],
    }
}

#[test]
fn attachment_selection_skips_existing_files_but_keeps_distinct_source_files() {
    let comments = vec![portal_comment()];

    let uploads = select_attachment_uploads(
        &comments,
        vec![
            upload_candidate(20, "already.txt"),
            upload_candidate(21, "same-name.txt"),
            upload_candidate(22, "same-name.txt"),
        ],
        MAX_COMMENT_ATTACHMENT_SIZE,
    )
    .unwrap();

    assert_eq!(
        uploads.iter().map(|upload| upload.attachment.id).collect::<Vec<_>>(),
        vec![22]
    );
}

#[test]
fn attachment_selection_refuses_malformed_comments_and_candidates() {
    let mut bad_id = portal_comment();
    bad_id.id = "not-a-uuid".to_owned();
    assert_eq!(
        select_attachment_uploads(&[bad_id], vec![], MAX_COMMENT_ATTACHMENT_SIZE).err(),
        Some(ImportError::CommentIdNotUuid { comment_id: "not-a-uuid".to_owned() })
    );
    assert_eq!(
        select_attachment_uploads(
            &[portal_comment(), portal_comment()],
            vec![],
            MAX_COMMENT_ATTACHMENT_SIZE
        )
        .err(),
        Some(ImportError::DuplicateCommentForJournal { journal_id: 10 })
    );
    let mut orphan = upload_candidate(30, "x.txt");
    orphan.journal_id = 99;
    assert_eq!(
        select_attachment_uploads(&[portal_comment()], vec![orphan], MAX_COMMENT_ATTACHMENT_SIZE)
            .err(),
        Some(ImportError::NoCommentForJournal { journal_id: 99 })
    );
    assert_eq!(
        select_attachment_uploads(&[portal_comment()], vec![upload_candidate(31, "y.txt")], 2)
            .err(),
        Some(ImportError::AttachmentTooLarge { attachment_id: 31 })
    );
    let mut wrong_size = upload_candidate(32, "z.txt");
    wrong_size.attachment.filesize = Some(4);
    assert_eq!(
        select_attachment_uploads(
            &[portal_comment()],
            vec![wrong_size],
            MAX_COMMENT_ATTACHMENT_SIZE
        )
        .err(),
        Some(ImportError::FilesizeMismatch { attachment_id: 32 })
    );
}

fn field(id: i64, name: &str, value: &str) -> RedmineCustomField {
    RedmineCustomField {
        id,
        name: name.to_string(),
        value: CustomFieldValue::Text(value.to_string()),
    }
}

#[test]
fn author_display_name_uses_custom_identity_for_bots_and_regular_authors() {
    let custom_fields = vec![
        field(CONTACT_CUSTOM_FIELD_ID, "連絡先", " contact@example.com "),
        field(ID_CUSTOM_FIELD_ID, "ID", " discord-user "),
    ];

    for original_name in ["なのです", "Observerをお助けするでござる", "regular author"] {
        assert_eq!(
            redmine_author_display_name(original_name, &custom_fields),
            "ID: discord-user / 連絡先: contact@example.com"
        );
    }

    assert_eq!(
        redmine_author_display_name("fallback", &[field(ID_CUSTOM_FIELD_ID, "ID", "discord-user")]),
        "discord-user"
    );
    assert_eq!(
        redmine_author_display_name(
            "fallback",
            &[field(CONTACT_CUSTOM_FIELD_ID, "連絡先", "contact@example.com")]
        ),
        "contact@example.com"
    );
}

#[test]
fn author_display_name_ignores_unfilled_values_and_keeps_original_name() {
    for value in ["", "   ", "なし", "無し", "不明", "未回答", "未記入", "未入力", "?", "。"] {
        assert_eq!(
            redmine_author_display_name("original author", &[field(ID_CUSTOM_FIELD_ID, "ID", value)]),
            "original author"
        );
    }

    assert_eq!(
        redmine_author_display_name(
            "original author",
            &[
                field(ID_CUSTOM_FIELD_ID, "ID", "なし"),
                field(CONTACT_CUSTOM_FIELD_ID, "連絡先", " contact@example.com "),
            ],
        ),
        "contact@example.com"
    );
}

#[test]
fn unfilled_author_values_are_recognised() {
    assert!(is_unfilled_author_value("N/A"));
    assert!(is_unfilled_author_value("Unknown"));
    assert!(is_unfilled_author_value("---"));
    assert!(!is_unfilled_author_value("player123"));
}

#[test]
fn custom_field_values_skip_empty_ones() {
    assert_eq!(custom_field_value(&CustomFieldValue::Null), None);
    assert_eq!(custom_field_value(&CustomFieldValue::Text("  ".to_owned())), None);
    assert_eq!(custom_field_value(&CustomFieldValue::EmptyArray), None);
    assert_eq!(custom_field_value(&CustomFieldValue::EmptyObject), None);
    assert_eq!(
        custom_field_value(&CustomFieldValue::Text(" x ".to_owned())),
        Some(" x ".to_owned())
    );
    assert_eq!(
        custom_field_value(&CustomFieldValue::Other("[1,2]".to_owned())),
        Some("[1,2]".to_owned())
    );
}

#[test]
fn fallback_prefers_a_naming_journal_with_notes_and_rotates_the_rest() {
    let result = associate_attachments_with_fallback(
        &[
            journal(10, "first", Vec::new()),
            journal(11, " ", vec![attachment_detail("31", None)]),
            journal(12, "second", vec![attachment_detail("32", None)]),
        ],
        &[
            attachment(30, "a.txt", None),
            attachment(31, "b.txt", None),
            attachment(32, "c.txt", None),
            attachment(33, "d.txt", None),
        ],
    )
    .unwrap();
    let chosen = result
        .associations
        .iter()
        .map(|a| (a.attachment.id, a.journal_id))
        .collect::<Vec<_>>();
    // 32 goes to the journal that names it; 30, 31 and 33 take turns over 10 and 12.
    assert_eq!(chosen, vec![(30, 10), (31, 12), (32, 12), (33, 10)]);
}

#[test]
fn fallback_is_refused_exactly_for_malformed_input() {
    let journals = [journal(10, "note", Vec::new())];
    assert_eq!(
        associate_attachments_with_fallback(
            &journals,
            &[attachment(1, "a", None), attachment(1, "b", None)]
        )
        .unwrap_err(),
        ImportError::DuplicateAttachmentId { attachment_id: 1 }
    );
    assert_eq!(
        associate_attachments_with_fallback(&journals, &[attachment(2, "", None)]).unwrap_err(),
        ImportError::EmptyAttachmentFilename { attachment_id: 2 }
    );
    assert!(associate_attachments_with_fallback(
        &[journal(0, "note", Vec::new())],
        &[attachment(3, "a", None)]
    )
    .is_err());
    assert!(associate_attachments_with_fallback(&journals, &[attachment(3, "a", None)]).is_ok());
}

#[test]
fn strict_association_keeps_order_and_the_naming_journal() {
    let associations = associate_attachments(
        &[
            journal(10, "first", vec![attachment_detail("21", Some("b.txt"))]),
            journal(11, "second", vec![attachment_detail("20", Some("a.txt"))]),
        ],
        &[attachment(20, "a.txt", None), attachment(21, "b.txt", None)],
    )
    .unwrap();
    let chosen = associations
        .iter()
        .map(|a| (a.attachment.id, a.journal_id))
        .collect::<Vec<_>>();
    assert_eq!(chosen, vec![(20, 11), (21, 10)]);
}

#[test]
fn journal_index_is_refused_for_an_attachment_in_two_journals() {
    assert!(index_attachment_journals(&[
        journal(10, "a", vec![attachment_detail("20", None)]),
        journal(11, "b", vec![attachment_detail("20", None)]),
    ])
    .is_err());
    assert!(index_attachment_journals(&[journal(10, "a", vec![attachment_detail("x", None)])])
        .is_err());
    let same_journal_twice = index_attachment_journals(&[
        journal(10, "a", vec![attachment_detail("20", None), attachment_detail("20", None)]),
    ])
    .unwrap();
    assert_eq!(same_journal_twice.get(&20), Some(&10));
}
