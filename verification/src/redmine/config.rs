//! The importer's settings: which Redmine projects and trackers it reads,
//! into which portal forms each tracker goes, and how Redmine statuses map
//! to portal statuses and labels. The checks that a settings file has to
//! pass before an import starts.
//!
//! The maps of the settings file are held as association lists, in the order
//! in which the file's map yields them (by key).

use vstd::prelude::*;

use crate::lookup::{
    contains_text, find_int_key, find_text_key, ids_without_repeats, int_keys, lemma_position,
    no_repeats, position, position_from, same_members, text_keys, texts, texts_without_repeats,
};
use crate::redmine::inquiry::InquiryRoute;
use crate::redmine::model::NamedId;
use crate::schemas::AnswerStatus;
use crate::text::{chars_of, text_equal, trim, trim_exec};
use crate::uuid_text::{parse_uuid, uuid_parse_str};

verus! {

/// The tracker whose answers are published.
pub const PUBLIC_TRACKER_ID: i64 = 19;

/// The tracker whose issues are inquiries.
pub const INQUIRY_TRACKER_ID: i64 = 4;

/// The trackers that are imported, with their Redmine names.
pub open spec fn target_tracker_table() -> Seq<(i64, Seq<char>)> {
    seq![
        (1i64, "不具合"@),
        (2i64, "アイデア"@),
        (4i64, "お問い合わせ"@),
        (5i64, "ご意見ご感想"@),
        (6i64, "通報"@),
        (9i64, "不具合報告"@),
        (12i64, "公共建築"@),
        (15i64, "修繕依頼"@),
        (18i64, "イベント"@),
        (19i64, "アイデア提案"@),
        (22i64, "デザイン"@),
        (29i64, "運営会議"@),
        (33i64, "ゲーム内処罰エビデンス"@),
        (34i64, "アイデア会議"@),
        (35i64, "Discord処罰エビデンス"@),
        (36i64, "不要保護報告"@),
    ]
}

/// The trackers that are deliberately left out, with their Redmine names.
pub open spec fn excluded_tracker_table() -> Seq<(i64, Seq<char>)> {
    seq![
        (7i64, "TT申請"@),
        (8i64, "道路整備"@),
        (10i64, "(過去ログ)ゲーム内処罰エビデンス"@),
        (20i64, "動画制作"@),
        (21i64, "公式HP編集"@),
        (24i64, "Webアプリ開発"@),
        (28i64, "WikiEditor申請"@),
        (30i64, "Observer申請"@),
        (32i64, "公式生配信"@),
    ]
}

pub open spec fn table_ids(table: Seq<(i64, Seq<char>)>) -> Seq<i64> {
    table.map_values(|e: (i64, Seq<char>)| e.0)
}

/// The name that `table` gives to `id`, if it lists it.
pub open spec fn table_name(table: Seq<(i64, Seq<char>)>, id: i64) -> Option<Seq<char>> {
    match position(table_ids(table), id) {
        Some(k) => Some(table[k].1),
        None => None,
    }
}

/// The imported trackers, as `target_tracker_table` lists them.
pub fn target_trackers() -> (table: Vec<(i64, &'static str)>)
    ensures
        table@.len() == target_tracker_table().len(),
        forall|i: int|
            0 <= i < table@.len() ==> table@[i].0 == target_tracker_table()[i].0 && table@[i].1@
                == target_tracker_table()[i].1,
{
    let table = vec![
        (1i64, "不具合"),
        (2i64, "アイデア"),
        (4i64, "お問い合わせ"),
        (5i64, "ご意見ご感想"),
        (6i64, "通報"),
        (9i64, "不具合報告"),
        (12i64, "公共建築"),
        (15i64, "修繕依頼"),
        (18i64, "イベント"),
        (19i64, "アイデア提案"),
        (22i64, "デザイン"),
        (29i64, "運営会議"),
        (33i64, "ゲーム内処罰エビデンス"),
        (34i64, "アイデア会議"),
        (35i64, "Discord処罰エビデンス"),
        (36i64, "不要保護報告"),
    ];
    table
}

/// The excluded trackers, as `excluded_tracker_table` lists them.
pub fn excluded_trackers() -> (table: Vec<(i64, &'static str)>)
    ensures
        table@.len() == excluded_tracker_table().len(),
        forall|i: int|
            0 <= i < table@.len() ==> table@[i].0 == excluded_tracker_table()[i].0 && table@[i].1@
                == excluded_tracker_table()[i].1,
{
    let table = vec![
        (7i64, "TT申請"),
        (8i64, "道路整備"),
        (10i64, "(過去ログ)ゲーム内処罰エビデンス"),
        (20i64, "動画制作"),
        (21i64, "公式HP編集"),
        (24i64, "Webアプリ開発"),
        (28i64, "WikiEditor申請"),
        (30i64, "Observer申請"),
        (32i64, "公式生配信"),
    ];
    table
}

/// A Redmine project that is imported.
#[derive(Debug, Clone)]
pub struct RedmineProject {
    pub id: i64,
    pub name: String,
}

/// Where the value of a form question comes from.
#[derive(Debug, Clone)]
pub enum QuestionValueSource {
    Subject,
    Description,
    SubjectAndDescription,
    ModName,
    FirstUrl,
    Ipv4Addresses,
    Static { value: String },
}

/// The portal form that a tracker or an inquiry route goes into, and how its
/// questions are filled.
#[derive(Debug, Clone)]
pub struct FormMapping {
    pub redmine_name: Option<String>,
    pub form_id: String,
    pub form_title: String,
    /// Question template key to value source.
    pub question_mappings: Vec<(String, QuestionValueSource)>,
    /// The question whose text receives the custom fields that no question
    /// takes.
    pub custom_field_content_template_key: String,
    /// Custom field ID to question template key.
    pub custom_field_question_mappings: Vec<(i64, String)>,
    pub labels: Vec<String>,
}

pub type TrackerMapping = FormMapping;

/// The importer's settings.
#[derive(Debug)]
pub struct Config {
    pub redmine_projects: Vec<RedmineProject>,
    pub page_size: u64,
    pub detail_concurrency: usize,
    pub max_retries: u32,
    pub retry_base_delay_ms: u64,
    /// Redmine status name to portal status.
    pub status_mapping: Vec<(String, String)>,
    /// Tracker ID to (Redmine status name to portal label name).
    pub status_label_mappings: Vec<(i64, Vec<(String, String)>)>,
    pub tracker_mappings: Vec<(i64, TrackerMapping)>,
    pub inquiry_mappings: Vec<(InquiryRoute, FormMapping)>,
    /// Tracker ID to Redmine tracker name.
    pub excluded_trackers: Vec<(i64, String)>,
}

/// What is wrong with a form mapping.
#[derive(Debug, Clone, PartialEq, Eq)]
pub enum FormMappingProblem {
    MissingFormIdOrTitle,
    FormIdNotUuid,
    NoQuestionMappings,
    BlankContentTemplateKey,
    ContentTemplateKeyNotMapped,
    NonPositiveCustomFieldId { field_id: i64 },
    BlankCustomFieldTemplateKey,
    CustomFieldKeyShadowsQuestion { template_key: String },
    DuplicateCustomFieldKey { template_key: String },
    BlankLabel,
    DuplicateLabel,
    BlankQuestionTemplateKey,
    BlankStaticValue,
}

/// Why the settings are refused, or a lookup in them fails.
#[derive(Debug, Clone, PartialEq, Eq)]
pub enum ConfigError {
    NoProjects,
    DuplicateProjectId,
    NonPositiveProjectId { project_id: i64 },
    BlankProjectName { project_id: i64 },
    PageSizeOutOfRange,
    DetailConcurrencyOutOfRange,
    TrackerMappingsMismatch,
    ExcludedTrackersMismatch,
    StatusLabelsForUntargetedTracker { tracker_id: i64 },
    StatusLabelForUnknownStatus { tracker_id: i64, status_name: String },
    BlankStatusLabel { tracker_id: i64 },
    DuplicateStatusLabel { label_name: String },
    WrongRedmineName { tracker_id: i64, actual: Option<String> },
    InvalidTrackerMapping { tracker_id: i64, problem: FormMappingProblem },
    InquiryMappingsMismatch,
    InvalidInquiryMapping { route: InquiryRoute, problem: FormMappingProblem },
    InvalidStatusIds,
    DuplicateStatusNames,
    StatusMappingMismatch,
    UnknownTracker { tracker_id: i64 },
    UnknownInquiryRoute { route: InquiryRoute },
    RouteOutsideInquiryTracker,
    UnknownProject { project_id: i64 },
    TrackerFormIdNotUuid { tracker_id: i64 },
    InquiryFormIdNotUuid { route: InquiryRoute },
    /// The content question that receives the custom fields is missing.
    MissingContentQuestion { template_key: String },
    /// A Redmine status that the status mapping does not cover.
    UnsupportedStatus { status_name: String },
    /// A Redmine status mapped to something that is not a portal status.
    InvalidPortalStatus { status_name: String },
}

/// The portal status with this wire name.
pub open spec fn answer_status_named(name: Seq<char>) -> Option<AnswerStatus> {
    if name == "UNADDRESSED"@ {
        Some(AnswerStatus::Unaddressed)
    } else if name == "IN_PROGRESS"@ {
        Some(AnswerStatus::InProgress)
    } else if name == "COMPLETED"@ {
        Some(AnswerStatus::Completed)
    } else {
        None
    }
}

pub fn portal_status(name: &str) -> (r: Option<AnswerStatus>)
    ensures
        r == answer_status_named(name@),
{
    if text_equal(name, "UNADDRESSED") {
        Some(AnswerStatus::Unaddressed)
    } else if text_equal(name, "IN_PROGRESS") {
        Some(AnswerStatus::InProgress)
    } else if text_equal(name, "COMPLETED") {
        Some(AnswerStatus::Completed)
    } else {
        None
    }
}

/// Text that is empty once whitespace is trimmed from both ends.
pub open spec fn is_blank(s: Seq<char>) -> bool {
    trim(s).len() == 0
}

pub fn is_blank_text(s: &str) -> (r: bool)
    ensures
        r == is_blank(s@),
{
    trim_exec(&chars_of(s)).len() == 0
}

/// The label that `mappings` gives to a status of a tracker, if any.
pub open spec fn status_label(
    mappings: Seq<(i64, Vec<(String, String)>)>,
    tracker_id: i64,
    redmine_status: Seq<char>,
) -> Option<Seq<char>> {
    match position(int_keys(mappings), tracker_id) {
        None => None,
        Some(t) => match position(text_keys(mappings[t].1@), redmine_status) {
            None => None,
            Some(k) => Some(mappings[t].1@[k].1@),
        },
    }
}

impl Config {
    /// The portal status of a Redmine status.
    pub fn status_for(&self, redmine_status: &str) -> (r: Result<AnswerStatus, ConfigError>)
        ensures
            match position(text_keys(self.status_mapping@), redmine_status@) {
                None => r matches Err(ConfigError::UnsupportedStatus { status_name }) && status_name@
                    == redmine_status@,
                Some(k) => match answer_status_named(self.status_mapping@[k].1@) {
                    Some(status) => r == Ok::<AnswerStatus, ConfigError>(status),
                    None => r matches Err(ConfigError::InvalidPortalStatus { status_name })
                        && status_name@ == redmine_status@,
                },
            },
    {
        match find_text_key(&self.status_mapping, redmine_status) {
            None => Err(
                ConfigError::UnsupportedStatus {
                    status_name: crate::text::string_of(&chars_of(redmine_status)),
                },
            ),
            Some(k) => match portal_status(self.status_mapping[k].1.as_str()) {
                Some(status) => Ok(status),
                None => Err(
                    ConfigError::InvalidPortalStatus {
                        status_name: crate::text::string_of(&chars_of(redmine_status)),
                    },
                ),
            },
        }
    }

    /// The label name of a Redmine status of a tracker, if one is set.
    pub fn status_label_for(&self, tracker_id: i64, redmine_status: &str) -> (label: Option<&str>)
        ensures
            match status_label(self.status_label_mappings@, tracker_id, redmine_status@) {
                Some(l) => label matches Some(s) && s@ == l,
                None => label is None,
            },
    {
        match find_int_key(&self.status_label_mappings, tracker_id) {
            None => None,
            Some(t) => {
                let labels = &self.status_label_mappings[t].1;
                match find_text_key(labels, redmine_status) {
                    None => None,
                    Some(k) => Some(labels[k].1.as_str()),
                }
            },
        }
    }

    /// The mapping of a target tracker.
    pub fn mapping_for(&self, tracker_id: i64) -> (r: Result<&TrackerMapping, ConfigError>)
        ensures
            match position(int_keys(self.tracker_mappings@), tracker_id) {
                Some(k) => r == Ok::<&TrackerMapping, ConfigError>(&self.tracker_mappings@[k].1),
                None => r == Err::<&TrackerMapping, ConfigError>(
                    ConfigError::UnknownTracker { tracker_id },
                ),
            },
    {
        match find_int_key(&self.tracker_mappings, tracker_id) {
            Some(k) => Ok(&self.tracker_mappings[k].1),
            None => Err(ConfigError::UnknownTracker { tracker_id }),
        }
    }

    pub open spec fn inquiry_routes(&self) -> Seq<InquiryRoute> {
        self.inquiry_mappings@.map_values(|e: (InquiryRoute, FormMapping)| e.0)
    }

    /// The mapping of an issue: that of its inquiry route where one is given,
    /// which only the inquiry tracker may have, else that of its tracker.
    pub fn form_mapping_for(&self, tracker_id: i64, route: Option<InquiryRoute>) -> (r: Result<
        &FormMapping,
        ConfigError,
    >)
        ensures
            match route {
                Some(route) => if tracker_id == INQUIRY_TRACKER_ID {
                    match position(self.inquiry_routes(), route) {
                        Some(k) => r == Ok::<&FormMapping, ConfigError>(
                            &self.inquiry_mappings@[k].1,
                        ),
                        None => r == Err::<&FormMapping, ConfigError>(
                            ConfigError::UnknownInquiryRoute { route },
                        ),
                    }
                } else {
                    r == Err::<&FormMapping, ConfigError>(ConfigError::RouteOutsideInquiryTracker)
                },
                None => match position(int_keys(self.tracker_mappings@), tracker_id) {
                    Some(k) => r == Ok::<&FormMapping, ConfigError>(
                        &self.tracker_mappings@[k].1,
                    ),
                    None => r == Err::<&FormMapping, ConfigError>(
                        ConfigError::UnknownTracker { tracker_id },
                    ),
                },
            },
    {
        match route {
            Some(route) => {
                if tracker_id == INQUIRY_TRACKER_ID {
                    match self.find_route(route) {
                        Some(k) => Ok(&self.inquiry_mappings[k].1),
                        None => Err(ConfigError::UnknownInquiryRoute { route }),
                    }
                } else {
                    Err(ConfigError::RouteOutsideInquiryTracker)
                }
            },
            None => self.mapping_for(tracker_id),
        }
    }

    fn find_route(&self, route: InquiryRoute) -> (r: Option<usize>)
        ensures
            match position(self.inquiry_routes(), route) {
                Some(k) => r matches Some(i) && i == k,
                None => r is None,
            },
            r matches Some(k) ==> k < self.inquiry_mappings@.len(),
    {
        proof {
            lemma_position(self.inquiry_routes(), route);
        }
        let ghost routes = self.inquiry_routes();
        let mut i: usize = 0;
        while i < self.inquiry_mappings.len()
            invariant
                i <= self.inquiry_mappings@.len(),
                routes == self.inquiry_routes(),
                position(routes, route) == position_from(routes, route, i as int),
            decreases self.inquiry_mappings@.len() - i,
        {
            if self.inquiry_mappings[i].0 == route {
                return Some(i);
            }
            i = i + 1;
        }
        None
    }

    pub open spec fn project_ids(&self) -> Seq<i64> {
        self.redmine_projects@.map_values(|p: RedmineProject| p.id)
    }

    /// The name of a configured Redmine project.
    pub fn project_name_for(&self, project_id: i64) -> (r: Result<&str, ConfigError>)
        ensures
            match position(self.project_ids(), project_id) {
                Some(k) => r matches Ok(name) && name@ == self.redmine_projects@[k].name@,
                None => r == Err::<&str, ConfigError>(ConfigError::UnknownProject { project_id }),
            },
    {
        proof {
            lemma_position(self.project_ids(), project_id);
        }
        let ghost ids = self.project_ids();
        let mut i: usize = 0;
        while i < self.redmine_projects.len()
            invariant
                i <= self.redmine_projects@.len(),
                ids == self.project_ids(),
                position(ids, project_id) == position_from(
                    ids,
                    project_id,
                    i as int,
                ),
            decreases self.redmine_projects@.len() - i,
        {
            if self.redmine_projects[i].id == project_id {
                return Ok(self.redmine_projects[i].name.as_str());
            }
            i = i + 1;
        }
        Err(ConfigError::UnknownProject { project_id })
    }

    /// The portal form ID of a tracker, as a UUID value.
    pub fn form_id_for(&self, tracker_id: i64) -> (r: Result<u128, ConfigError>)
        ensures
            match position(int_keys(self.tracker_mappings@), tracker_id) {
                Some(k) => match uuid_parse_str(self.tracker_mappings@[k].1.form_id@) {
                    Some(id) => r == Ok::<u128, ConfigError>(id),
                    None => r == Err::<u128, ConfigError>(
                        ConfigError::TrackerFormIdNotUuid { tracker_id },
                    ),
                },
                None => r == Err::<u128, ConfigError>(ConfigError::UnknownTracker { tracker_id }),
            },
    {
        let mapping = self.form_mapping_for(tracker_id, None)?;
        match parse_uuid(mapping.form_id.as_str()) {
            Some(id) => Ok(id),
            None => Err(ConfigError::TrackerFormIdNotUuid { tracker_id }),
        }
    }

    /// The portal form ID of an inquiry route, as a UUID value.
    pub fn form_id_for_inquiry(&self, route: InquiryRoute) -> (r: Result<u128, ConfigError>)
        ensures
            match position(self.inquiry_routes(), route) {
                Some(k) => match uuid_parse_str(self.inquiry_mappings@[k].1.form_id@) {
                    Some(id) => r == Ok::<u128, ConfigError>(id),
                    None => r == Err::<u128, ConfigError>(
                        ConfigError::InquiryFormIdNotUuid { route },
                    ),
                },
                None => r == Err::<u128, ConfigError>(ConfigError::UnknownInquiryRoute { route }),
            },
    {
        let mapping = self.form_mapping_for(INQUIRY_TRACKER_ID, Some(route))?;
        match parse_uuid(mapping.form_id.as_str()) {
            Some(id) => Ok(id),
            None => Err(ConfigError::InquiryFormIdNotUuid { route }),
        }
    }

    pub open spec fn status_names(&self) -> Seq<Seq<char>> {
        text_keys(self.status_mapping@)
    }

    /// Whether the statuses that Redmine reports are exactly those that the
    /// status mapping covers, each with a positive ID of its own and a name
    /// of its own.
    pub fn validate_statuses(&self, statuses: &[NamedId]) -> (r: Result<(), ConfigError>)
        ensures
            r == statuses_problem(self.status_names(), statuses@),
    {
        let mut ids: Vec<i64> = Vec::new();
        let mut names: Vec<String> = Vec::new();
        let mut any_non_positive = false;
        let mut i: usize = 0;
        while i < statuses.len()
            invariant
                i <= statuses@.len(),
                ids@.len() == i,
                names@.len() == i,
                forall|k: int| 0 <= k < i ==> ids@[k] == statuses@[k].id,
                forall|k: int| 0 <= k < i ==> names@[k]@ == statuses@[k].name@,
                any_non_positive == exists|k: int| 0 <= k < i && statuses@[k].id <= 0,
            decreases statuses@.len() - i,
        {
            ids.push(statuses[i].id);
            names.push(statuses[i].name.clone());
            if statuses[i].id <= 0 {
                any_non_positive = true;
            }
            i = i + 1;
        }
        assert(ids@ =~= status_ids(statuses@));
        assert(texts(names@) =~= status_texts(statuses@));
        if !ids_without_repeats(&ids) || any_non_positive {
            return Err(ConfigError::InvalidStatusIds);
        }
        if !texts_without_repeats(&names) {
            return Err(ConfigError::DuplicateStatusNames);
        }
        if !self.covers_exactly(&names) {
            return Err(ConfigError::StatusMappingMismatch);
        }
        Ok(())
    }

    fn covers_exactly(&self, names: &Vec<String>) -> (r: bool)
        ensures
            r == same_members(texts(names@), self.status_names()),
    {
        let ghost a = texts(names@);
        let ghost b = self.status_names();
        let mut i: usize = 0;
        while i < names.len()
            invariant
                i <= names@.len(),
                a == texts(names@),
                b == self.status_names(),
                forall|k: int| 0 <= k < i ==> b.contains(#[trigger] a[k]),
            decreases names@.len() - i,
        {
            let found = find_text_key(&self.status_mapping, names[i].as_str());
            proof {
                lemma_position(b, a[i as int]);
            }
            if found.is_none() {
                assert(a.contains(a[i as int]));
                return false;
            }
            i = i + 1;
        }
        let mut j: usize = 0;
        while j < self.status_mapping.len()
            invariant
                j <= self.status_mapping@.len(),
                a == texts(names@),
                b == self.status_names(),
                forall|k: int| 0 <= k < a.len() ==> b.contains(#[trigger] a[k]),
                forall|k: int| 0 <= k < j ==> a.contains(#[trigger] b[k]),
            decreases self.status_mapping@.len() - j,
        {
            if !contains_text(names, self.status_mapping[j].0.as_str()) {
                assert(b.contains(b[j as int]));
                return false;
            }
            j = j + 1;
        }
        assert forall|x: Seq<char>| a.contains(x) == b.contains(x) by {
            if a.contains(x) {
                let k = choose|k: int| 0 <= k < a.len() && a[k] == x;
                assert(b.contains(a[k]));
            }
            if b.contains(x) {
                let k = choose|k: int| 0 <= k < b.len() && b[k] == x;
                assert(a.contains(b[k]));
            }
        }
        true
    }
}

pub open spec fn status_ids(statuses: Seq<NamedId>) -> Seq<i64> {
    statuses.map_values(|s: NamedId| s.id)
}

pub open spec fn status_texts(statuses: Seq<NamedId>) -> Seq<Seq<char>> {
    statuses.map_values(|s: NamedId| s.name@)
}

/// Whether the statuses reported by Redmine fit the status mapping whose
/// names are `configured`.
pub open spec fn statuses_problem(configured: Seq<Seq<char>>, statuses: Seq<NamedId>) -> Result<
    (),
    ConfigError,
> {
    if !no_repeats(status_ids(statuses)) || exists|k: int|
        0 <= k < statuses.len() && #[trigger] statuses[k].id <= 0 {
        Err(ConfigError::InvalidStatusIds)
    } else if !no_repeats(status_texts(statuses)) {
        Err(ConfigError::DuplicateStatusNames)
    } else if !same_members(status_texts(statuses), configured) {
        Err(ConfigError::StatusMappingMismatch)
    } else {
        Ok(())
    }
}

} // verus!
