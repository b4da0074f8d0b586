use seichi_portal::redmine::config::{
    excluded_trackers, target_trackers, Config, ConfigError, FormMapping, FormMappingProblem,
    QuestionValueSource, RedmineProject,
};
use seichi_portal::redmine::config_check::validate_form_mapping;
use seichi_portal::redmine::inquiry::{InquiryClassification, InquiryRoute};
use seichi_portal::redmine::targets::{find_import_target, import_targets, status_target_key};
use seichi_portal::redmine::cli::Report;
use seichi_portal::redmine::model::{
    CustomFieldValue, IssueStub, NamedId, RedmineCustomField, RedmineIssue, RedmineUser,
};
use seichi_portal::redmine::prepare::{prepare_issue, PrepareProblem};
use seichi_portal::redmine::triage::DetailMismatch;
use seichi_portal::schemas::{AnswerPublication, AnswerStatus};

const FORM_ID: &str = "018f4f37-2f5e-7b39-8b39-9a2f2695d7ad";

fn mapping(redmine_name: &str) -> FormMapping {
    FormMapping {
        redmine_name: Some(redmine_name.to_owned()),
        form_id: FORM_ID.to_owned(),
        form_title: "Form".to_owned(),
        question_mappings: vec![
            ("body".to_owned(), QuestionValueSource::Description),
            ("title".to_owned(), QuestionValueSource::Subject),
        ],
        custom_field_content_template_key: "body".to_owned(),
        custom_field_question_mappings: Vec::new(),
        labels: Vec::new(),
    }
}

fn config() -> Config {
    Config {
        redmine_projects: vec![RedmineProject { id: 3, name: "seichi".to_owned() }],
        page_size: 100,
        detail_concurrency: 4,
        max_retries: 3,
        retry_base_delay_ms: 100,
        status_mapping: vec![
            ("完了".to_owned(), "COMPLETED".to_owned()),
            ("新規".to_owned(), "UNADDRESSED".to_owned()),
            ("対応中".to_owned(), "IN_PROGRESS".to_owned()),
        ],
        status_label_mappings: vec![(
            2,
            vec![("完了".to_owned(), "採用".to_owned())],
        )],
        tracker_mappings: target_trackers()
            .into_iter()
            .map(|(id, name)| (id, mapping(name)))
            .collect(),
        inquiry_mappings: vec![
            (InquiryRoute::Mod, mapping("mod")),
            (InquiryRoute::Login, mapping("login")),
            (InquiryRoute::ExperienceOverflow, mapping("experience_overflow")),
            (InquiryRoute::Appeal, mapping("appeal")),
        ],
        excluded_trackers: excluded_trackers()
            .into_iter()
            .map(|(id, name)| (id, name.to_owned()))
            .collect(),
    }
}

fn issue(custom_fields: Vec<RedmineCustomField>) -> RedmineIssue {
    RedmineIssue {
        id: 1,
        project: NamedId { id: 3, name: "project".to_string() },
        tracker: NamedId { id: 6, name: "通報".to_string() },
        subject: "summary".to_string(),
        description: Some("description".to_string()),
        author: RedmineUser { id: 2, name: "author".to_string() },
        created_on: "2024-01-02T03:04:05Z".to_string(),
        status: NamedId { id: 1, name: "新規".to_string() },
        journals: Vec::new(),
        attachments: Vec::new(),
        custom_fields,
    }
}

fn text_field(id: i64, name: &str, value: &str) -> RedmineCustomField {
    RedmineCustomField {
        id,
        name: name.to_string(),
        value: CustomFieldValue::Text(value.to_string()),
    }
}

#[test]
fn a_complete_mapping_passes_validation() {
    assert_eq!(config().validate(), Ok(()));
}

#[test]
fn validation_reports_the_first_problem() {
    let mut c = config();
    c.redmine_projects.clear();
    assert_eq!(c.validate(), Err(ConfigError::NoProjects));

    let mut c = config();
    c.redmine_projects.push(RedmineProject { id: 3, name: "again".to_owned() });
    assert_eq!(c.validate(), Err(ConfigError::DuplicateProjectId));

    let mut c = config();
    c.redmine_projects[0].name = "  ".to_owned();
    assert_eq!(c.validate(), Err(ConfigError::BlankProjectName { project_id: 3 }));

    let mut c = config();
    c.page_size = 101;
    assert_eq!(c.validate(), Err(ConfigError::PageSizeOutOfRange));

    let mut c = config();
    c.detail_concurrency = 0;
    assert_eq!(c.validate(), Err(ConfigError::DetailConcurrencyOutOfRange));

    let mut c = config();
    c.tracker_mappings.pop();
    assert_eq!(c.validate(), Err(ConfigError::TrackerMappingsMismatch));

    let mut c = config();
    c.excluded_trackers[0].1 = "別名".to_owned();
    assert_eq!(c.validate(), Err(ConfigError::ExcludedTrackersMismatch));

    let mut c = config();
    c.status_label_mappings = vec![(7, Vec::new())];
    assert_eq!(
        c.validate(),
        Err(ConfigError::StatusLabelsForUntargetedTracker { tracker_id: 7 })
    );

    let mut c = config();
    c.status_label_mappings = vec![(
        2,
        vec![("却下".to_owned(), "不採用".to_owned())],
    )];
    assert_eq!(
        c.validate(),
        Err(ConfigError::StatusLabelForUnknownStatus {
            tracker_id: 2,
            status_name: "却下".to_owned()
        })
    );

    let mut c = config();
    c.status_label_mappings = vec![
        (2, vec![("完了".to_owned(), "採用".to_owned())]),
        (19, vec![("新規".to_owned(), "採用".to_owned())]),
    ];
    assert_eq!(
        c.validate(),
        Err(ConfigError::DuplicateStatusLabel { label_name: "採用".to_owned() })
    );

    let mut c = config();
    c.tracker_mappings[0].1.redmine_name = Some("別名".to_owned());
    assert_eq!(
        c.validate(),
        Err(ConfigError::WrongRedmineName { tracker_id: 1, actual: Some("別名".to_owned()) })
    );

    let mut c = config();
    c.tracker_mappings[1].1.form_id = "not-a-uuid".to_owned();
    assert_eq!(
        c.validate(),
        Err(ConfigError::InvalidTrackerMapping {
            tracker_id: 2,
            problem: FormMappingProblem::FormIdNotUuid
        })
    );

    let mut c = config();
    c.inquiry_mappings.pop();
    assert_eq!(c.validate(), Err(ConfigError::InquiryMappingsMismatch));

    let mut c = config();
    c.inquiry_mappings[2].1.labels = vec!["a".to_owned(), "a".to_owned()];
    assert_eq!(
        c.validate(),
        Err(ConfigError::InvalidInquiryMapping {
            route: InquiryRoute::ExperienceOverflow,
            problem: FormMappingProblem::DuplicateLabel
        })
    );
}

#[test]
fn form_mapping_problems_are_named() {
    let mut m = mapping("x");
    m.form_title = " ".to_owned();
    assert_eq!(validate_form_mapping(&m), Err(FormMappingProblem::MissingFormIdOrTitle));

    let mut m = mapping("x");
    m.question_mappings.clear();
    assert_eq!(validate_form_mapping(&m), Err(FormMappingProblem::NoQuestionMappings));

    let mut m = mapping("x");
    m.custom_field_content_template_key = "missing".to_owned();
    assert_eq!(validate_form_mapping(&m), Err(FormMappingProblem::ContentTemplateKeyNotMapped));

    let mut m = mapping("x");
    m.custom_field_question_mappings = vec![(0, "k".to_owned())];
    assert_eq!(
        validate_form_mapping(&m),
        Err(FormMappingProblem::NonPositiveCustomFieldId { field_id: 0 })
    );

    let mut m = mapping("x");
    m.custom_field_question_mappings = vec![(1, "title".to_owned())];
    assert_eq!(
        validate_form_mapping(&m),
        Err(FormMappingProblem::CustomFieldKeyShadowsQuestion { template_key: "title".to_owned() })
    );

    let mut m = mapping("x");
    m.custom_field_question_mappings = vec![(1, "k".to_owned()), (2, "k".to_owned())];
    assert_eq!(
        validate_form_mapping(&m),
        Err(FormMappingProblem::DuplicateCustomFieldKey { template_key: "k".to_owned() })
    );

    let mut m = mapping("x");
    m.labels = vec![" ".to_owned()];
    assert_eq!(validate_form_mapping(&m), Err(FormMappingProblem::BlankLabel));

    let mut m = mapping("x");
    m.question_mappings.push((
        "fixed".to_owned(),
        QuestionValueSource::Static { value: "".to_owned() },
    ));
    assert_eq!(validate_form_mapping(&m), Err(FormMappingProblem::BlankStaticValue));
}

#[test]
fn status_mapping_must_cover_exactly_the_redmine_statuses() {
    let config = config();
    let statuses = config
        .status_mapping
        .iter()
        .enumerate()
        .map(|(id, (name, _))| NamedId { id: id as i64 + 1, name: name.clone() })
        .collect::<Vec<_>>();

    assert!(config.validate_statuses(&statuses).is_ok());
    assert!(config.validate_statuses(&statuses[..statuses.len() - 1]).is_err());
}

#[test]
fn status_errors_are_named() {
    let config = config();
    let status = |id, name: &str| NamedId { id, name: name.to_owned() };
    assert_eq!(
        config.validate_statuses(&[status(0, "完了"), status(1, "新規"), status(2, "対応中")]),
        Err(ConfigError::InvalidStatusIds)
    );
    assert_eq!(
        config.validate_statuses(&[status(1, "完了"), status(2, "完了"), status(3, "対応中")]),
        Err(ConfigError::DuplicateStatusNames)
    );
    assert_eq!(
        config.validate_statuses(&[status(1, "完了"), status(2, "新規"), status(3, "却下")]),
        Err(ConfigError::StatusMappingMismatch)
    );
}

#[test]
fn lookups_follow_the_mappings() {
    let config = config();
    assert_eq!(config.status_label_for(2, "完了"), Some("採用"));
    assert_eq!(config.status_label_for(2, "新規"), None);
    assert_eq!(config.status_label_for(1, "完了"), None);
    assert_eq!(config.project_name_for(3), Ok("seichi"));
    assert_eq!(config.project_name_for(4), Err(ConfigError::UnknownProject { project_id: 4 }));
    assert_eq!(
        config.mapping_for(6).unwrap().redmine_name.as_deref(),
        Some("通報")
    );
    assert!(matches!(
        config.mapping_for(7),
        Err(ConfigError::UnknownTracker { tracker_id: 7 })
    ));
    assert_eq!(
        config.form_mapping_for(4, Some(InquiryRoute::Login)).unwrap().redmine_name.as_deref(),
        Some("login")
    );
    assert!(matches!(
        config.form_mapping_for(6, Some(InquiryRoute::Login)),
        Err(ConfigError::RouteOutsideInquiryTracker)
    ));
    assert_eq!(
        config.form_id_for(1),
        Ok(0x018f4f37_2f5e_7b39_8b39_9a2f2695d7ad_u128)
    );
    assert_eq!(
        config.form_id_for_inquiry(InquiryRoute::Mod),
        Ok(0x018f4f37_2f5e_7b39_8b39_9a2f2695d7ad_u128)
    );
    let mut broken = config;
    broken.tracker_mappings[0].1.form_id = "nope".to_owned();
    assert_eq!(broken.form_id_for(1), Err(ConfigError::TrackerFormIdNotUuid { tracker_id: 1 }));
}

#[test]
fn custom_fields_are_mapped_or_appended_without_losing_values() {
    let mut config = config();
    let report = config
        .tracker_mappings
        .iter_mut()
        .find(|(id, _)| *id == 6)
        .unwrap();
    report.1.question_mappings = vec![
        ("report_content".to_owned(), QuestionValueSource::Description),
        ("title".to_owned(), QuestionValueSource::Subject),
    ];
    report.1.custom_field_content_template_key = "report_content".to_owned();
    report.1.custom_field_question_mappings = vec![(3, "target_minecraft_id".to_owned())];
    let issue = issue(vec![
        text_field(1, "連絡先", "contact@example.com"),
        text_field(3, "違反者ID", "target-player"),
        text_field(7, "空の項目", ""),
    ]);

    let values = config.question_values_for(6, &issue).unwrap();
    let get = |key: &str| {
        values
            .iter()
            .find(|(k, _)| k == key)
            .map(|(_, v)| v.clone())
    };

    assert_eq!(get("target_minecraft_id"), Some("target-player".to_string()));
    let content = get("report_content").unwrap();
    assert!(content.contains("連絡先 (ID: 1): contact@example.com"));
    assert!(!content.contains("違反者ID (ID: 3)"));
    assert!(!content.contains("空の項目"));
    assert_eq!(
        content,
        "description\n\n---\nRedmine カスタムフィールド:\n- 連絡先 (ID: 1): contact@example.com"
    );
    assert_eq!(get("title"), Some("summary".to_string()));
}

#[test]
fn question_values_need_the_content_question_for_leftover_fields() {
    let mut config = config();
    config.tracker_mappings[0].1.custom_field_content_template_key = "missing".to_owned();
    let with_extra = issue(vec![text_field(9, "extra", "value")]);
    assert_eq!(
        config.question_values_for(1, &with_extra),
        Err(ConfigError::MissingContentQuestion { template_key: "missing".to_owned() })
    );
    let values = config
        .question_values_for_inquiry(InquiryRoute::Appeal, &issue(Vec::new()))
        .unwrap();
    assert_eq!(values.len(), 2);
}

#[test]
fn value_sources_resolve_from_the_issue() {
    assert_eq!(QuestionValueSource::SubjectAndDescription.resolve("s", "d"), "s\n\nd");
    assert_eq!(QuestionValueSource::SubjectAndDescription.resolve("s", ""), "s");
    assert_eq!(
        QuestionValueSource::Static { value: "ゲーム内".to_owned() }.resolve("s", "d"),
        "ゲーム内"
    );
    assert_eq!(QuestionValueSource::FirstUrl.resolve("see http://a.b/c", ""), "http://a.b/c");
}

#[test]
fn every_tracker_state_and_classification_gets_a_form_target() {
    let c = config();
    let targets = import_targets(&c).unwrap();
    // 16 trackers; tracker 2 has one labelled status, tracker 4 five classifications.
    assert_eq!(targets.len(), 16 + 1 + 4);
    assert_eq!(targets[0].tracker_id, 1);
    assert_eq!(targets[0].status_name, None);
    assert_eq!(targets[0].classification, InquiryClassification::Generic);
    assert_eq!(targets[0].form_title, "Form");
    assert_eq!(targets[1].tracker_id, 2);
    assert_eq!(targets[2].tracker_id, 2);
    assert_eq!(targets[2].status_name.as_deref(), Some("完了"));
    assert_eq!(targets[2].labels, vec!["採用".to_string()]);
    let inquiry = targets
        .iter()
        .filter(|t| t.tracker_id == 4)
        .map(|t| t.classification)
        .collect::<Vec<_>>();
    assert_eq!(
        inquiry,
        vec![
            InquiryClassification::Generic,
            InquiryClassification::Mod,
            InquiryClassification::Login,
            InquiryClassification::ExperienceOverflow,
            InquiryClassification::Appeal,
        ]
    );

    assert_eq!(status_target_key(&c, 2, "完了"), Some("完了".to_string()));
    assert_eq!(status_target_key(&c, 2, "新規"), None);
    assert_eq!(
        find_import_target(&targets, 2, &Some("完了".to_string()), InquiryClassification::Generic),
        Some(2)
    );
    assert_eq!(find_import_target(&targets, 2, &None, InquiryClassification::Mod), None);

    let mut broken = config();
    broken.inquiry_mappings.pop();
    assert_eq!(
        import_targets(&broken).unwrap_err(),
        ConfigError::UnknownInquiryRoute {
            route: InquiryRoute::Appeal
        }
    );
}

#[test]
fn redmine_statuses_map_to_portal_statuses() {
    use_status_checks(config());
}

fn use_status_checks(c: Config) {
    assert_eq!(c.status_for("完了"), Ok(seichi_portal::schemas::AnswerStatus::Completed));
    assert_eq!(c.status_for("対応中"), Ok(seichi_portal::schemas::AnswerStatus::InProgress));
    assert_eq!(
        c.status_for("却下"),
        Err(ConfigError::UnsupportedStatus {
            status_name: "却下".to_owned()
        })
    );
    let mut bad = c;
    bad.status_mapping[0].1 = "DONE".to_owned();
    assert_eq!(
        bad.status_for("完了"),
        Err(ConfigError::InvalidPortalStatus {
            status_name: "完了".to_owned()
        })
    );
    assert_eq!(
        bad.validate(),
        Err(ConfigError::InvalidPortalStatus {
            status_name: "完了".to_owned()
        })
    );
}

fn listed_issue() -> (IssueStub, RedmineIssue) {
    let (tracker_id, tracker_name) = target_trackers()[0];
    let stub = IssueStub {
        project_id: 3,
        id: 1,
        tracker_id,
        tracker_name: tracker_name.to_string(),
        relations: Vec::new(),
    };
    let mut details = issue(Vec::new());
    details.project.name = "seichi".to_string();
    details.tracker = NamedId { id: tracker_id, name: tracker_name.to_string() };
    (stub, details)
}

#[test]
fn a_listed_issue_is_prepared_with_its_status_and_answers() {
    let c = config();
    let targets = import_targets(&c).unwrap();
    let (stub, details) = listed_issue();
    let preparation = prepare_issue(&c, &targets, &stub, details);
    assert!(preparation.attachment_warnings.is_empty());
    let prepared = preparation.outcome.unwrap();
    assert_eq!(prepared.project_id, 3);
    assert_eq!(prepared.issue_id, 1);
    assert_eq!(prepared.tracker_name, stub.tracker_name);
    assert_eq!(prepared.inquiry_classification, InquiryClassification::Generic);
    assert_eq!(prepared.publication, AnswerPublication::Private);
    assert_eq!(prepared.built.input.status, AnswerStatus::Unaddressed);
    assert_eq!(prepared.built.input.issue_id, 1);
    assert!(prepared
        .built
        .input
        .question_values
        .contains(&("title".to_string(), "summary".to_string())));
    assert!(prepared.attachments.is_empty());
}

#[test]
fn preparation_stops_at_the_first_problem() {
    let c = config();
    let targets = import_targets(&c).unwrap();

    let (mut stub, details) = listed_issue();
    stub.project_id = 9;
    assert!(matches!(
        prepare_issue(&c, &targets, &stub, details).outcome,
        Err(PrepareProblem::UnknownProject { project_id: 9 })
    ));

    let (stub, mut details) = listed_issue();
    details.project.name = "other".to_string();
    assert!(matches!(
        prepare_issue(&c, &targets, &stub, details).outcome,
        Err(PrepareProblem::DetailMismatch(DetailMismatch::Project))
    ));

    let (stub, mut details) = listed_issue();
    details.status.name = "却下".to_string();
    assert!(matches!(
        prepare_issue(&c, &targets, &stub, details).outcome,
        Err(PrepareProblem::Status(ConfigError::UnsupportedStatus { .. }))
    ));

    let (stub, mut details) = listed_issue();
    details.created_on = "yesterday".to_string();
    assert!(matches!(
        prepare_issue(&c, &targets, &stub, details).outcome,
        Err(PrepareProblem::Build(_))
    ));
}

#[test]
fn an_import_goes_on_only_without_errors() {
    let mut report = Report::default();
    assert!(report.allows_import());
    report.warning("w".to_string());
    assert!(report.allows_import());
    report.error("e".to_string());
    assert!(!report.allows_import());
}

#[test]
fn settings_tables_hold_each_key_once() {
    assert!(config().has_unique_keys());

    let mut c = config();
    c.status_mapping.push(("完了".to_owned(), "COMPLETED".to_owned()));
    assert!(!c.has_unique_keys());

    let mut c = config();
    c.status_label_mappings[0].1.push(("完了".to_owned(), "別".to_owned()));
    assert!(!c.has_unique_keys());

    let mut c = config();
    let extra = mapping("mod");
    c.inquiry_mappings.push((InquiryRoute::Mod, extra));
    assert!(!c.has_unique_keys());
}
