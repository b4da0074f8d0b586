//! The checks that the importer's settings have to pass. Each check reports
//! the first problem it meets, in the order in which the settings are read.

use vstd::prelude::*;

use crate::lookup::{
    contains_text, find_int_key, find_text_key, ids_without_repeats, int_keys, lemma_position,
    lemma_position_of_unique, no_repeats, position, same_ids, same_members, text_keys, texts,
    texts_without_repeats,
};
use crate::text::{chars_of, text_equal};
use crate::redmine::config::{
    answer_status_named, portal_status,
    excluded_tracker_table, excluded_trackers, is_blank, is_blank_text, table_ids,
    table_name, target_tracker_table, target_trackers, Config, ConfigError, FormMapping,
    FormMappingProblem, QuestionValueSource, RedmineProject,
};
use crate::redmine::inquiry::InquiryRoute;
use crate::uuid_text::{parse_uuid, uuid_parse_str};

verus! {

/// What is wrong with the custom field entry at `i` of a form mapping,
/// given that the entries before it passed.
pub open spec fn custom_field_entry_problem(m: FormMapping, i: int) -> Option<FormMappingProblem> {
    let entries = m.custom_field_question_mappings@;
    let (field_id, key) = entries[i];
    if field_id <= 0 {
        Some(FormMappingProblem::NonPositiveCustomFieldId { field_id })
    } else if is_blank(key@) {
        Some(FormMappingProblem::BlankCustomFieldTemplateKey)
    } else if text_keys(m.question_mappings@).contains(key@) {
        Some(FormMappingProblem::CustomFieldKeyShadowsQuestion { template_key: key })
    } else if exists|j: int| 0 <= j < i && #[trigger] entries[j].1@ == key@ {
        Some(FormMappingProblem::DuplicateCustomFieldKey { template_key: key })
    } else {
        None
    }
}

/// The first problem among the custom field entries from `i` on.
pub open spec fn custom_field_problem_from(m: FormMapping, i: int) -> Option<FormMappingProblem>
    decreases m.custom_field_question_mappings@.len() - i,
{
    if i < 0 || i >= m.custom_field_question_mappings@.len() {
        None
    } else {
        match custom_field_entry_problem(m, i) {
            Some(p) => Some(p),
            None => custom_field_problem_from(m, i + 1),
        }
    }
}

/// What is wrong with the question entry at `i` of a form mapping.
pub open spec fn question_entry_problem(m: FormMapping, i: int) -> Option<FormMappingProblem> {
    let (key, source) = m.question_mappings@[i];
    if is_blank(key@) {
        Some(FormMappingProblem::BlankQuestionTemplateKey)
    } else {
        match source {
            QuestionValueSource::Static { value } => if is_blank(value@) {
                Some(FormMappingProblem::BlankStaticValue)
            } else {
                None
            },
            _ => None,
        }
    }
}

/// The first problem among the question entries from `i` on.
pub open spec fn question_problem_from(m: FormMapping, i: int) -> Option<FormMappingProblem>
    decreases m.question_mappings@.len() - i,
{
    if i < 0 || i >= m.question_mappings@.len() {
        None
    } else {
        match question_entry_problem(m, i) {
            Some(p) => Some(p),
            None => question_problem_from(m, i + 1),
        }
    }
}

/// The first problem of a form mapping, if it has one.
pub open spec fn form_mapping_problem(m: FormMapping) -> Option<FormMappingProblem> {
    if is_blank(m.form_id@) || is_blank(m.form_title@) {
        Some(FormMappingProblem::MissingFormIdOrTitle)
    } else if uuid_parse_str(m.form_id@) is None {
        Some(FormMappingProblem::FormIdNotUuid)
    } else if m.question_mappings@.len() == 0 {
        Some(FormMappingProblem::NoQuestionMappings)
    } else if is_blank(m.custom_field_content_template_key@) {
        Some(FormMappingProblem::BlankContentTemplateKey)
    } else if !text_keys(m.question_mappings@).contains(m.custom_field_content_template_key@) {
        Some(FormMappingProblem::ContentTemplateKeyNotMapped)
    } else if custom_field_problem_from(m, 0) is Some {
        custom_field_problem_from(m, 0)
    } else if exists|k: int| 0 <= k < m.labels@.len() && is_blank(#[trigger] m.labels@[k]@) {
        Some(FormMappingProblem::BlankLabel)
    } else if !no_repeats(texts(m.labels@)) {
        Some(FormMappingProblem::DuplicateLabel)
    } else {
        question_problem_from(m, 0)
    }
}

fn custom_field_problem(m: &FormMapping) -> (r: Option<FormMappingProblem>)
    ensures
        r == custom_field_problem_from(*m, 0),
{
    let entries = &m.custom_field_question_mappings;
    let mut seen: Vec<String> = Vec::new();
    let mut i: usize = 0;
    while i < entries.len()
        invariant
            i <= entries@.len(),
            entries == &m.custom_field_question_mappings,
            seen@.len() == i,
            forall|j: int| 0 <= j < i ==> #[trigger] seen@[j]@ == entries@[j].1@,
            custom_field_problem_from(*m, 0) == custom_field_problem_from(*m, i as int),
        decreases entries@.len() - i,
    {
        let field_id = entries[i].0;
        let key = &entries[i].1;
        let ghost here = custom_field_entry_problem(*m, i as int);
        if field_id <= 0 {
            return Some(FormMappingProblem::NonPositiveCustomFieldId { field_id });
        }
        if is_blank_text(key.as_str()) {
            return Some(FormMappingProblem::BlankCustomFieldTemplateKey);
        }
        let shadow = find_text_key(&m.question_mappings, key.as_str());
        proof {
            lemma_position(text_keys(m.question_mappings@), key@);
        }
        if shadow.is_some() {
            return Some(FormMappingProblem::CustomFieldKeyShadowsQuestion { template_key: key.clone() });
        }
        if contains_text(&seen, key.as_str()) {
            proof {
                let j = choose|j: int| 0 <= j < seen@.len() && texts(seen@)[j] == key@;
                assert(entries@[j].1@ == key@);
            }
            return Some(FormMappingProblem::DuplicateCustomFieldKey { template_key: key.clone() });
        }
        proof {
            assert forall|j: int| 0 <= j < i implies #[trigger] entries@[j].1@ != key@ by {
                assert(texts(seen@)[j] == seen@[j]@);
            }
        }
        assert(here is None);
        seen.push(key.clone());
        i = i + 1;
    }
    None
}

fn question_problem(m: &FormMapping) -> (r: Option<FormMappingProblem>)
    ensures
        r == question_problem_from(*m, 0),
{
    let entries = &m.question_mappings;
    let mut i: usize = 0;
    while i < entries.len()
        invariant
            i <= entries@.len(),
            entries == &m.question_mappings,
            question_problem_from(*m, 0) == question_problem_from(*m, i as int),
        decreases entries@.len() - i,
    {
        if is_blank_text(entries[i].0.as_str()) {
            return Some(FormMappingProblem::BlankQuestionTemplateKey);
        }
        match &entries[i].1 {
            QuestionValueSource::Static { value } => {
                if is_blank_text(value.as_str()) {
                    return Some(FormMappingProblem::BlankStaticValue);
                }
            },
            _ => {},
        }
        i = i + 1;
    }
    None
}

fn any_blank(strings: &Vec<String>) -> (r: bool)
    ensures
        r == exists|k: int| 0 <= k < strings@.len() && is_blank(#[trigger] strings@[k]@),
{
    let mut i: usize = 0;
    while i < strings.len()
        invariant
            i <= strings@.len(),
            forall|k: int| 0 <= k < i ==> !is_blank(#[trigger] strings@[k]@),
        decreases strings@.len() - i,
    {
        if is_blank_text(strings[i].as_str()) {
            return true;
        }
        i = i + 1;
    }
    false
}

/// Checks a form mapping: a form ID that is a UUID and a title, at least one
/// question, a content question among them, custom field questions with
/// positive IDs and keys of their own, labels that are set and distinct,
/// and no blank question key or static value.
pub fn validate_form_mapping(mapping: &FormMapping) -> (r: Result<(), FormMappingProblem>)
    ensures
        match form_mapping_problem(*mapping) {
            Some(p) => r == Err::<(), FormMappingProblem>(p),
            None => r is Ok,
        },
{
    if is_blank_text(mapping.form_id.as_str()) || is_blank_text(mapping.form_title.as_str()) {
        return Err(FormMappingProblem::MissingFormIdOrTitle);
    }
    if parse_uuid(mapping.form_id.as_str()).is_none() {
        return Err(FormMappingProblem::FormIdNotUuid);
    }
    if mapping.question_mappings.len() == 0 {
        return Err(FormMappingProblem::NoQuestionMappings);
    }
    if is_blank_text(mapping.custom_field_content_template_key.as_str()) {
        return Err(FormMappingProblem::BlankContentTemplateKey);
    }
    let content = find_text_key(
        &mapping.question_mappings,
        mapping.custom_field_content_template_key.as_str(),
    );
    proof {
        lemma_position(
            text_keys(mapping.question_mappings@),
            mapping.custom_field_content_template_key@,
        );
    }
    if content.is_none() {
        return Err(FormMappingProblem::ContentTemplateKeyNotMapped);
    }
    if let Some(p) = custom_field_problem(mapping) {
        return Err(p);
    }
    if any_blank(&mapping.labels) {
        return Err(FormMappingProblem::BlankLabel);
    }
    if !texts_without_repeats(&mapping.labels) {
        return Err(FormMappingProblem::DuplicateLabel);
    }
    match question_problem(mapping) {
        Some(p) => Err(p),
        None => Ok(()),
    }
}

pub open spec fn project_entry_problem(p: RedmineProject) -> Option<ConfigError> {
    if p.id <= 0 {
        Some(ConfigError::NonPositiveProjectId { project_id: p.id })
    } else if is_blank(p.name@) {
        Some(ConfigError::BlankProjectName { project_id: p.id })
    } else {
        None
    }
}

pub open spec fn project_problem_from(projects: Seq<RedmineProject>, i: int) -> Option<ConfigError>
    decreases projects.len() - i,
{
    if i < 0 || i >= projects.len() {
        None
    } else {
        match project_entry_problem(projects[i]) {
            Some(e) => Some(e),
            None => project_problem_from(projects, i + 1),
        }
    }
}

/// At least one project, each with a positive ID of its own and a name.
pub open spec fn projects_problem(c: Config) -> Option<ConfigError> {
    if c.redmine_projects@.len() == 0 {
        Some(ConfigError::NoProjects)
    } else if !no_repeats(c.project_ids()) {
        Some(ConfigError::DuplicateProjectId)
    } else {
        project_problem_from(c.redmine_projects@, 0)
    }
}

/// A page size from 1 to 100 and from 1 to 32 concurrent detail requests.
pub open spec fn limits_problem(c: Config) -> Option<ConfigError> {
    if c.page_size == 0 || c.page_size > 100 {
        Some(ConfigError::PageSizeOutOfRange)
    } else if c.detail_concurrency == 0 || c.detail_concurrency > 32 {
        Some(ConfigError::DetailConcurrencyOutOfRange)
    } else {
        None
    }
}

pub open spec fn target_ids() -> Seq<i64> {
    table_ids(target_tracker_table())
}

/// The excluded trackers are exactly those of `excluded_tracker_table`,
/// with their names.
pub open spec fn excluded_trackers_match(entries: Seq<(i64, String)>) -> bool {
    &&& same_members(int_keys(entries), table_ids(excluded_tracker_table()))
    &&& forall|i: int|
        0 <= i < entries.len() ==> table_name(excluded_tracker_table(), #[trigger] entries[i].0)
            == Some(entries[i].1@)
}

pub open spec fn label_entries_problem(
    status_names: Seq<Seq<char>>,
    tracker_id: i64,
    seen: Seq<Seq<char>>,
    labels: Seq<(String, String)>,
    k: int,
) -> Result<Seq<Seq<char>>, ConfigError>
    decreases labels.len() - k,
{
    if k < 0 || k >= labels.len() {
        Ok(seen)
    } else {
        let (status, label) = labels[k];
        if !status_names.contains(status@) {
            Err(ConfigError::StatusLabelForUnknownStatus { tracker_id, status_name: status })
        } else if is_blank(label@) {
            Err(ConfigError::BlankStatusLabel { tracker_id })
        } else if seen.contains(label@) {
            Err(ConfigError::DuplicateStatusLabel { label_name: label })
        } else {
            label_entries_problem(status_names, tracker_id, seen.push(label@), labels, k + 1)
        }
    }
}

/// The status labels from the tracker at `t` on, given the label names
/// `seen` before it: each for a target tracker and a mapped status, with a
/// label name that no other status label uses.
pub open spec fn status_labels_problem_from(c: Config, seen: Seq<Seq<char>>, t: int) -> Option<
    ConfigError,
>
    decreases c.status_label_mappings@.len() - t,
{
    if t < 0 || t >= c.status_label_mappings@.len() {
        None
    } else {
        let (tracker_id, labels) = c.status_label_mappings@[t];
        if !target_ids().contains(tracker_id) {
            Some(ConfigError::StatusLabelsForUntargetedTracker { tracker_id })
        } else {
            match label_entries_problem(c.status_names(), tracker_id, seen, labels@, 0) {
                Err(e) => Some(e),
                Ok(next) => status_labels_problem_from(c, next, t + 1),
            }
        }
    }
}

/// The tracker mapping at `i` names its tracker as Redmine does and is a
/// valid form mapping.
pub open spec fn tracker_entry_problem(c: Config, i: int) -> Option<ConfigError> {
    let (tracker_id, m) = c.tracker_mappings@[i];
    if !(m.redmine_name matches Some(n) && table_name(target_tracker_table(), tracker_id) == Some(
        n@,
    )) {
        Some(ConfigError::WrongRedmineName { tracker_id, actual: m.redmine_name })
    } else {
        match form_mapping_problem(m) {
            Some(problem) => Some(ConfigError::InvalidTrackerMapping { tracker_id, problem }),
            None => None,
        }
    }
}

pub open spec fn tracker_problem_from(c: Config, i: int) -> Option<ConfigError>
    decreases c.tracker_mappings@.len() - i,
{
    if i < 0 || i >= c.tracker_mappings@.len() {
        None
    } else {
        match tracker_entry_problem(c, i) {
            Some(e) => Some(e),
            None => tracker_problem_from(c, i + 1),
        }
    }
}

pub open spec fn all_routes() -> Seq<InquiryRoute> {
    seq![InquiryRoute::Mod, InquiryRoute::Login, InquiryRoute::ExperienceOverflow, InquiryRoute::Appeal]
}

/// The inquiry mappings from the route at `r` of `all_routes` on.
pub open spec fn inquiry_problem_from(c: Config, r: int) -> Option<ConfigError>
    decreases 4 - r,
{
    if r < 0 || r >= 4 {
        None
    } else {
        let route = all_routes()[r];
        match position(c.inquiry_routes(), route) {
            Some(k) => match form_mapping_problem(c.inquiry_mappings@[k].1) {
                Some(problem) => Some(ConfigError::InvalidInquiryMapping { route, problem }),
                None => inquiry_problem_from(c, r + 1),
            },
            None => inquiry_problem_from(c, r + 1),
        }
    }
}

/// The first problem of the settings, in the order in which they are
/// checked.
pub open spec fn config_problem(c: Config) -> Option<ConfigError> {
    if projects_problem(c) is Some {
        projects_problem(c)
    } else if limits_problem(c) is Some {
        limits_problem(c)
    } else if !same_members(int_keys(c.tracker_mappings@), target_ids()) {
        Some(ConfigError::TrackerMappingsMismatch)
    } else if !excluded_trackers_match(c.excluded_trackers@) {
        Some(ConfigError::ExcludedTrackersMismatch)
    } else if status_labels_problem_from(c, Seq::empty(), 0) is Some {
        status_labels_problem_from(c, Seq::empty(), 0)
    } else if tracker_problem_from(c, 0) is Some {
        tracker_problem_from(c, 0)
    } else if !same_members(c.inquiry_routes(), all_routes()) {
        Some(ConfigError::InquiryMappingsMismatch)
    } else if inquiry_problem_from(c, 0) is Some {
        inquiry_problem_from(c, 0)
    } else {
        portal_status_problem_from(c.status_mapping@, 0)
    }
}

/// The first entry of the status mapping, from `i` on, whose portal status
/// is not one.
pub open spec fn portal_status_problem_from(entries: Seq<(String, String)>, i: int) -> Option<
    ConfigError,
>
    decreases entries.len() - i,
{
    if i < 0 || i >= entries.len() {
        None
    } else if answer_status_named(entries[i].1@) is None {
        Some(ConfigError::InvalidPortalStatus { status_name: entries[i].0 })
    } else {
        portal_status_problem_from(entries, i + 1)
    }
}

fn table_id_list(table: &Vec<(i64, &'static str)>) -> (ids: Vec<i64>)
    ensures
        ids@ == int_keys(table@),
{
    let mut ids: Vec<i64> = Vec::new();
    let mut i: usize = 0;
    while i < table.len()
        invariant
            i <= table@.len(),
            ids@ == int_keys(table@).subrange(0, i as int),
        decreases table@.len() - i,
    {
        ids.push(table[i].0);
        i = i + 1;
        assert(ids@ =~= int_keys(table@).subrange(0, i as int));
    }
    assert(ids@ =~= int_keys(table@));
    ids
}

fn key_list<V>(entries: &Vec<(i64, V)>) -> (ids: Vec<i64>)
    ensures
        ids@ == int_keys(entries@),
{
    let mut ids: Vec<i64> = Vec::new();
    let mut i: usize = 0;
    while i < entries.len()
        invariant
            i <= entries@.len(),
            ids@ == int_keys(entries@).subrange(0, i as int),
        decreases entries@.len() - i,
    {
        ids.push(entries[i].0);
        i = i + 1;
        assert(ids@ =~= int_keys(entries@).subrange(0, i as int));
    }
    assert(ids@ =~= int_keys(entries@));
    ids
}

/// The name that a table of `target_trackers` or `excluded_trackers` gives
/// to `id`.
fn name_in_table(table: &Vec<(i64, &'static str)>, id: i64, spec_table: Ghost<Seq<(i64, Seq<char>)>>) -> (r: Option<&'static str>)
    requires
        table@.len() == spec_table@.len(),
        forall|i: int|
            0 <= i < table@.len() ==> table@[i].0 == spec_table@[i].0 && table@[i].1@
                == spec_table@[i].1,
    ensures
        match table_name(spec_table@, id) {
            Some(n) => r matches Some(s) && s@ == n,
            None => r is None,
        },
{
    assert(int_keys(table@) =~= table_ids(spec_table@));
    match find_int_key(table, id) {
        Some(k) => Some(table[k].1),
        None => None,
    }
}

proof fn lemma_tracker_entries_pass(c: Config, i: int, j: int)
    requires
        0 <= i <= j < c.tracker_mappings@.len(),
        tracker_problem_from(c, i) is None,
    ensures
        tracker_entry_problem(c, j) is None,
    decreases j - i,
{
    if i < j {
        lemma_tracker_entries_pass(c, i + 1, j);
    }
}

proof fn lemma_inquiry_entries_pass(c: Config, r: int, k: int)
    requires
        0 <= r <= k < 4,
        inquiry_problem_from(c, r) is None,
    ensures
        position(c.inquiry_routes(), all_routes()[k]) matches Some(i) ==> form_mapping_problem(
            c.inquiry_mappings@[i].1,
        ) is None,
    decreases k - r,
{
    if r < k {
        let route = all_routes()[r];
        match position(c.inquiry_routes(), route) {
            Some(i) => {},
            None => {},
        }
        lemma_inquiry_entries_pass(c, r + 1, k);
    }
}

/// Settings that pass `validate` map every target tracker, and every
/// dedicated inquiry route, to a form whose ID is a UUID: the lookups that
/// an import makes for them cannot fail.
pub proof fn lemma_valid_config_resolves_every_form(c: Config, tracker_id: i64, route: InquiryRoute)
    requires
        config_problem(c) is None,
        target_ids().contains(tracker_id),
    ensures
        position(int_keys(c.tracker_mappings@), tracker_id) matches Some(k) && uuid_parse_str(
            c.tracker_mappings@[k].1.form_id@,
        ) is Some,
        position(c.inquiry_routes(), route) matches Some(k) && uuid_parse_str(
            c.inquiry_mappings@[k].1.form_id@,
        ) is Some,
{
    lemma_position(int_keys(c.tracker_mappings@), tracker_id);
    assert(int_keys(c.tracker_mappings@).contains(tracker_id));
    let k = position(int_keys(c.tracker_mappings@), tracker_id)->0;
    lemma_tracker_entries_pass(c, 0, k);
    lemma_position(c.inquiry_routes(), route);
    let r: int = match route {
        InquiryRoute::Mod => 0,
        InquiryRoute::Login => 1,
        InquiryRoute::ExperienceOverflow => 2,
        InquiryRoute::Appeal => 3,
    };
    assert(all_routes()[r] == route);
    assert(c.inquiry_routes().contains(route));
    lemma_inquiry_entries_pass(c, 0, r);
}

impl Config {
    fn projects_check(&self) -> (r: Option<ConfigError>)
        ensures
            r == projects_problem(*self),
    {
        if self.redmine_projects.len() == 0 {
            return Some(ConfigError::NoProjects);
        }
        let mut ids: Vec<i64> = Vec::new();
        let mut i: usize = 0;
        while i < self.redmine_projects.len()
            invariant
                i <= self.redmine_projects@.len(),
                ids@ == self.project_ids().subrange(0, i as int),
            decreases self.redmine_projects@.len() - i,
        {
            ids.push(self.redmine_projects[i].id);
            i = i + 1;
            assert(ids@ =~= self.project_ids().subrange(0, i as int));
        }
        assert(ids@ =~= self.project_ids());
        if !ids_without_repeats(&ids) {
            return Some(ConfigError::DuplicateProjectId);
        }
        let mut j: usize = 0;
        while j < self.redmine_projects.len()
            invariant
                j <= self.redmine_projects@.len(),
                self.redmine_projects@.len() > 0,
                no_repeats(self.project_ids()),
                project_problem_from(self.redmine_projects@, 0) == project_problem_from(
                    self.redmine_projects@,
                    j as int,
                ),
            decreases self.redmine_projects@.len() - j,
        {
            let project = &self.redmine_projects[j];
            if project.id <= 0 {
                return Some(ConfigError::NonPositiveProjectId { project_id: project.id });
            }
            if is_blank_text(project.name.as_str()) {
                return Some(ConfigError::BlankProjectName { project_id: project.id });
            }
            j = j + 1;
        }
        None
    }

    fn excluded_check(&self) -> (r: bool)
        ensures
            r == excluded_trackers_match(self.excluded_trackers@),
    {
        let table = excluded_trackers();
        let expected = table_id_list(&table);
        assert(expected@ =~= table_ids(excluded_tracker_table()));
        let configured = key_list(&self.excluded_trackers);
        if !same_ids(&configured, &expected) {
            return false;
        }
        let entries = &self.excluded_trackers;
        let mut i: usize = 0;
        while i < entries.len()
            invariant
                i <= entries@.len(),
                entries == &self.excluded_trackers,
                table@.len() == excluded_tracker_table().len(),
                forall|k: int|
                    0 <= k < table@.len() ==> table@[k].0 == excluded_tracker_table()[k].0
                        && table@[k].1@ == excluded_tracker_table()[k].1,
                forall|k: int|
                    0 <= k < i ==> table_name(excluded_tracker_table(), #[trigger] entries@[k].0)
                        == Some(entries@[k].1@),
            decreases entries@.len() - i,
        {
            match name_in_table(&table, entries[i].0, Ghost(excluded_tracker_table())) {
                Some(name) => {
                    if !text_equal(name, entries[i].1.as_str()) {
                        return false;
                    }
                },
                None => {
                    return false;
                },
            }
            i = i + 1;
        }
        true
    }

    fn status_labels_check(&self) -> (r: Option<ConfigError>)
        ensures
            r == status_labels_problem_from(*self, Seq::empty(), 0),
    {
        let targets = target_trackers();
        let target_id_list = table_id_list(&targets);
        assert(target_id_list@ =~= target_ids());
        let mut seen: Vec<String> = Vec::new();
        let mut t: usize = 0;
        assert(texts(seen@) =~= Seq::<Seq<char>>::empty());
        while t < self.status_label_mappings.len()
            invariant
                t <= self.status_label_mappings@.len(),
                target_id_list@ == target_ids(),
                status_labels_problem_from(*self, Seq::empty(), 0) == status_labels_problem_from(
                    *self,
                    texts(seen@),
                    t as int,
                ),
            decreases self.status_label_mappings@.len() - t,
        {
            let tracker_id = self.status_label_mappings[t].0;
            let labels = &self.status_label_mappings[t].1;
            if !crate::lookup::contains_id(&target_id_list, tracker_id) {
                return Some(ConfigError::StatusLabelsForUntargetedTracker { tracker_id });
            }
            let ghost seen_before = texts(seen@);
            let mut k: usize = 0;
            while k < labels.len()
                invariant
                    k <= labels@.len(),
                    t < self.status_label_mappings@.len(),
                    target_ids().contains(tracker_id),
                    status_labels_problem_from(*self, Seq::empty(), 0)
                        == status_labels_problem_from(*self, seen_before, t as int),
                    labels == &self.status_label_mappings@[t as int].1,
                    tracker_id == self.status_label_mappings@[t as int].0,
                    label_entries_problem(self.status_names(), tracker_id, seen_before, labels@, 0)
                        == label_entries_problem(
                        self.status_names(),
                        tracker_id,
                        texts(seen@),
                        labels@,
                        k as int,
                    ),
                decreases labels@.len() - k,
            {
                let status = &labels[k].0;
                let label = &labels[k].1;
                let found = find_text_key(&self.status_mapping, status.as_str());
                proof {
                    lemma_position(self.status_names(), status@);
                }
                if found.is_none() {
                    return Some(
                        ConfigError::StatusLabelForUnknownStatus {
                            tracker_id,
                            status_name: status.clone(),
                        },
                    );
                }
                if is_blank_text(label.as_str()) {
                    return Some(ConfigError::BlankStatusLabel { tracker_id });
                }
                if contains_text(&seen, label.as_str()) {
                    return Some(ConfigError::DuplicateStatusLabel { label_name: label.clone() });
                }
                let ghost before = texts(seen@);
                seen.push(label.clone());
                assert(texts(seen@) =~= before.push(label@));
                k = k + 1;
            }
            t = t + 1;
        }
        None
    }

    fn tracker_entries_check(&self) -> (r: Option<ConfigError>)
        ensures
            r == tracker_problem_from(*self, 0),
    {
        let targets = target_trackers();
        let mut i: usize = 0;
        while i < self.tracker_mappings.len()
            invariant
                i <= self.tracker_mappings@.len(),
                targets@.len() == target_tracker_table().len(),
                forall|k: int|
                    0 <= k < targets@.len() ==> targets@[k].0 == target_tracker_table()[k].0
                        && targets@[k].1@ == target_tracker_table()[k].1,
                tracker_problem_from(*self, 0) == tracker_problem_from(*self, i as int),
            decreases self.tracker_mappings@.len() - i,
        {
            let tracker_id = self.tracker_mappings[i].0;
            let mapping = &self.tracker_mappings[i].1;
            let expected = name_in_table(&targets, tracker_id, Ghost(target_tracker_table()));
            let named = match (&mapping.redmine_name, expected) {
                (Some(actual), Some(name)) => text_equal(actual.as_str(), name),
                _ => false,
            };
            if !named {
                return Some(
                    ConfigError::WrongRedmineName {
                        tracker_id,
                        actual: crate::redmine::model::clone_optional_string(&mapping.redmine_name),
                    },
                );
            }
            if let Err(problem) = validate_form_mapping(mapping) {
                return Some(ConfigError::InvalidTrackerMapping { tracker_id, problem });
            }
            i = i + 1;
        }
        None
    }

    fn routes_check(&self) -> (r: bool)
        ensures
            r == same_members(self.inquiry_routes(), all_routes()),
    {
        let routes = InquiryRoute::special();
        let mut i: usize = 0;
        while i < 4
            invariant
                i <= 4,
                routes@ == all_routes(),
                forall|k: int| 0 <= k < i ==> self.inquiry_routes().contains(#[trigger] all_routes()[k]),
            decreases 4 - i,
        {
            let found = self.find_route_index(routes[i]);
            if found.is_none() {
                assert(all_routes().contains(all_routes()[i as int]));
                return false;
            }
            i = i + 1;
        }
        let mut j: usize = 0;
        while j < self.inquiry_mappings.len()
            invariant
                j <= self.inquiry_mappings@.len(),
                forall|k: int| 0 <= k < 4 ==> self.inquiry_routes().contains(#[trigger] all_routes()[k]),
                forall|k: int| 0 <= k < j ==> all_routes().contains(#[trigger] self.inquiry_routes()[k]),
            decreases self.inquiry_mappings@.len() - j,
        {
            let route = self.inquiry_mappings[j].0;
            assert(route == self.inquiry_routes()[j as int]);
            match route {
                InquiryRoute::Mod => assert(all_routes()[0] == route),
                InquiryRoute::Login => assert(all_routes()[1] == route),
                InquiryRoute::ExperienceOverflow => assert(all_routes()[2] == route),
                InquiryRoute::Appeal => assert(all_routes()[3] == route),
            }
            j = j + 1;
        }
        assert forall|x: InquiryRoute| self.inquiry_routes().contains(x) == all_routes().contains(x) by {
            if self.inquiry_routes().contains(x) {
                let k = choose|k: int| 0 <= k < self.inquiry_routes().len() && self.inquiry_routes()[k] == x;
                assert(all_routes().contains(self.inquiry_routes()[k]));
            }
            if all_routes().contains(x) {
                let k = choose|k: int| 0 <= k < 4 && all_routes()[k] == x;
                assert(self.inquiry_routes().contains(all_routes()[k]));
            }
        }
        true
    }

    fn find_route_index(&self, route: InquiryRoute) -> (r: Option<usize>)
        ensures
            match position(self.inquiry_routes(), route) {
                Some(k) => r matches Some(i) && i == k,
                None => r is None,
            },
            r matches Some(k) ==> k < self.inquiry_mappings@.len() && self.inquiry_routes()[k as int]
                == route,
            r is None ==> !self.inquiry_routes().contains(route),
    {
        proof {
            lemma_position(self.inquiry_routes(), route);
        }
        let ghost routes = self.inquiry_routes();
        let mut i: usize = 0;
        while i < self.inquiry_mappings.len()
            invariant
                i <= self.inquiry_mappings@.len(),
                routes == self.inquiry_routes(),
                position(routes, route) == crate::lookup::position_from(routes, route, i as int),
            decreases self.inquiry_mappings@.len() - i,
        {
            if self.inquiry_mappings[i].0 == route {
                return Some(i);
            }
            i = i + 1;
        }
        None
    }

    fn inquiry_entries_check(&self) -> (r: Option<ConfigError>)
        ensures
            r == inquiry_problem_from(*self, 0),
    {
        let routes = InquiryRoute::special();
        let mut i: usize = 0;
        while i < 4
            invariant
                i <= 4,
                routes@ == all_routes(),
                inquiry_problem_from(*self, 0) == inquiry_problem_from(*self, i as int),
            decreases 4 - i,
        {
            let route = routes[i];
            match self.find_route_index(route) {
                Some(k) => {
                    if let Err(problem) = validate_form_mapping(&self.inquiry_mappings[k].1) {
                        return Some(ConfigError::InvalidInquiryMapping { route, problem });
                    }
                },
                None => {},
            }
            i = i + 1;
        }
        None
    }

    /// Checks the settings before an import: the projects, the limits, that
    /// the tracker mappings cover exactly the target trackers and the
    /// excluded trackers are exactly those left out, the status labels, each
    /// tracker mapping, and that the inquiry mappings cover exactly the
    /// dedicated routes, each valid, and that each mapped portal status is a
    /// status of the portal.
    pub fn validate(&self) -> (r: Result<(), ConfigError>)
        ensures
            match config_problem(*self) {
                Some(e) => r == Err::<(), ConfigError>(e),
                None => r is Ok,
            },
    {
        if let Some(e) = self.projects_check() {
            return Err(e);
        }
        if self.page_size == 0 || self.page_size > 100 {
            return Err(ConfigError::PageSizeOutOfRange);
        }
        if self.detail_concurrency == 0 || self.detail_concurrency > 32 {
            return Err(ConfigError::DetailConcurrencyOutOfRange);
        }
        let targets = target_trackers();
        let target_id_list = table_id_list(&targets);
        assert(target_id_list@ =~= target_ids());
        let configured = key_list(&self.tracker_mappings);
        if !same_ids(&configured, &target_id_list) {
            return Err(ConfigError::TrackerMappingsMismatch);
        }
        if !self.excluded_check() {
            return Err(ConfigError::ExcludedTrackersMismatch);
        }
        if let Some(e) = self.status_labels_check() {
            return Err(e);
        }
        if let Some(e) = self.tracker_entries_check() {
            return Err(e);
        }
        if !self.routes_check() {
            return Err(ConfigError::InquiryMappingsMismatch);
        }
        if let Some(e) = self.inquiry_entries_check() {
            return Err(e);
        }
        let mut i: usize = 0;
        while i < self.status_mapping.len()
            invariant
                i <= self.status_mapping@.len(),
                config_problem(*self) == portal_status_problem_from(self.status_mapping@, i as int),
            decreases self.status_mapping@.len() - i,
        {
            if portal_status(self.status_mapping[i].1.as_str()).is_none() {
                return Err(
                    ConfigError::InvalidPortalStatus {
                        status_name: self.status_mapping[i].0.clone(),
                    },
                );
            }
            i = i + 1;
        }
        Ok(())
    }
}

/// The label names of a tracker's status labels, in order.
pub open spec fn label_texts(labels: Seq<(String, String)>) -> Seq<Seq<char>> {
    labels.map_values(|e: (String, String)| e.1@)
}

/// The label names of the status labels from the tracker at `t` on, tracker
/// by tracker.
pub open spec fn label_names_from(c: Config, t: int) -> Seq<Seq<char>>
    decreases c.status_label_mappings@.len() - t,
{
    if t < 0 || t >= c.status_label_mappings@.len() {
        Seq::empty()
    } else {
        label_texts(c.status_label_mappings@[t].1@) + label_names_from(c, t + 1)
    }
}

/// Each status label of a tracker names a mapped status and has a name.
pub open spec fn labels_are_valid(c: Config, labels: Seq<(String, String)>) -> bool {
    forall|k: int|
        0 <= k < labels.len() ==> c.status_names().contains((#[trigger] labels[k]).0@) && !is_blank(
            labels[k].1@,
        )
}

/// A tracker mapping that names its tracker as Redmine does and is a valid
/// form mapping.
pub open spec fn tracker_mapping_is_valid(entry: (i64, FormMapping)) -> bool {
    entry.1.redmine_name matches Some(n) && table_name(target_tracker_table(), entry.0) == Some(n@)
        && form_mapping_problem(entry.1) is None
}

/// The settings an import can start from, stated field by field.
pub open spec fn config_is_valid(c: Config) -> bool {
    &&& c.redmine_projects@.len() > 0
    &&& no_repeats(c.project_ids())
    &&& forall|i: int|
        0 <= i < c.redmine_projects@.len() ==> (#[trigger] c.redmine_projects@[i]).id > 0
            && !is_blank(c.redmine_projects@[i].name@)
    &&& 1 <= c.page_size <= 100
    &&& 1 <= c.detail_concurrency <= 32
    &&& same_members(int_keys(c.tracker_mappings@), target_ids())
    &&& excluded_trackers_match(c.excluded_trackers@)
    &&& forall|t: int|
        0 <= t < c.status_label_mappings@.len() ==> target_ids().contains(
            (#[trigger] c.status_label_mappings@[t]).0,
        ) && labels_are_valid(c, c.status_label_mappings@[t].1@)
    &&& no_repeats(label_names_from(c, 0))
    &&& forall|i: int|
        0 <= i < c.tracker_mappings@.len() ==> tracker_mapping_is_valid(
            #[trigger] c.tracker_mappings@[i],
        )
    &&& same_members(c.inquiry_routes(), all_routes())
    &&& forall|r: int|
        0 <= r < 4 ==> (position(c.inquiry_routes(), #[trigger] all_routes()[r]) matches Some(k)
            ==> form_mapping_problem(c.inquiry_mappings@[k].1) is None)
    &&& forall|i: int|
        0 <= i < c.status_mapping@.len() ==> answer_status_named(
            (#[trigger] c.status_mapping@[i]).1@,
        ) is Some
}

proof fn lemma_projects_pass(projects: Seq<RedmineProject>, i: int)
    requires
        0 <= i <= projects.len(),
    ensures
        project_problem_from(projects, i) is None <==> forall|j: int|
            i <= j < projects.len() ==> (#[trigger] projects[j]).id > 0 && !is_blank(
                projects[j].name@,
            ),
    decreases projects.len() - i,
{
    if i < projects.len() {
        lemma_projects_pass(projects, i + 1);
    }
}

proof fn lemma_trackers_pass(c: Config, i: int)
    requires
        0 <= i <= c.tracker_mappings@.len(),
    ensures
        tracker_problem_from(c, i) is None <==> forall|j: int|
            i <= j < c.tracker_mappings@.len() ==> tracker_mapping_is_valid(
                #[trigger] c.tracker_mappings@[j],
            ),
    decreases c.tracker_mappings@.len() - i,
{
    if i < c.tracker_mappings@.len() {
        lemma_trackers_pass(c, i + 1);
    }
}

proof fn lemma_inquiries_pass(c: Config, r: int)
    requires
        0 <= r <= 4,
    ensures
        inquiry_problem_from(c, r) is None <==> forall|q: int|
            r <= q < 4 ==> (position(c.inquiry_routes(), #[trigger] all_routes()[q]) matches Some(k)
                ==> form_mapping_problem(c.inquiry_mappings@[k].1) is None),
    decreases 4 - r,
{
    if r < 4 {
        lemma_inquiries_pass(c, r + 1);
    }
}

proof fn lemma_portal_statuses_pass(entries: Seq<(String, String)>, i: int)
    requires
        0 <= i <= entries.len(),
    ensures
        portal_status_problem_from(entries, i) is None <==> forall|j: int|
            i <= j < entries.len() ==> answer_status_named((#[trigger] entries[j]).1@) is Some,
    decreases entries.len() - i,
{
    if i < entries.len() {
        lemma_portal_statuses_pass(entries, i + 1);
    }
}

proof fn lemma_label_entries_pass(
    c: Config,
    tracker_id: i64,
    seen: Seq<Seq<char>>,
    labels: Seq<(String, String)>,
    k: int,
)
    requires
        0 <= k <= labels.len(),
        no_repeats(seen),
    ensures
        label_entries_problem(c.status_names(), tracker_id, seen, labels, k) is Ok <==> (forall|
            j: int,
        |
            k <= j < labels.len() ==> c.status_names().contains((#[trigger] labels[j]).0@)
                && !is_blank(labels[j].1@)) && no_repeats(
            seen + label_texts(labels).subrange(k, labels.len() as int),
        ),
        label_entries_problem(c.status_names(), tracker_id, seen, labels, k) matches Ok(next)
            ==> next == seen + label_texts(labels).subrange(k, labels.len() as int),
    decreases labels.len() - k,
{
    let names = label_texts(labels);
    let all = seen + names.subrange(k, labels.len() as int);
    if k == labels.len() {
        assert(all =~= seen);
    } else {
        let (status, label) = labels[k];
        assert(all[seen.len() as int] == label@);
        if !c.status_names().contains(status@) || is_blank(label@) {
        } else if seen.contains(label@) {
            let i = choose|i: int| 0 <= i < seen.len() && seen[i] == label@;
            assert(all[i] == all[seen.len() as int]);
        } else {
            let pushed = seen.push(label@);
            assert(no_repeats(pushed)) by {
                assert forall|i: int, j: int| 0 <= i < j < pushed.len() implies pushed[i]
                    != pushed[j] by {
                    if j == seen.len() {
                        assert(seen.contains(pushed[i]));
                    }
                }
            }
            lemma_label_entries_pass(c, tracker_id, pushed, labels, k + 1);
            assert(pushed + names.subrange(k + 1, labels.len() as int) =~= all);
        }
    }
}

proof fn lemma_no_repeats_prefix(a: Seq<Seq<char>>, b: Seq<Seq<char>>)
    requires
        no_repeats(a + b),
    ensures
        no_repeats(a),
{
    assert forall|i: int, j: int| 0 <= i < j < a.len() implies a[i] != a[j] by {
        assert((a + b)[i] == a[i] && (a + b)[j] == a[j]);
    }
}

proof fn lemma_status_labels_pass(c: Config, seen: Seq<Seq<char>>, t: int)
    requires
        0 <= t <= c.status_label_mappings@.len(),
        no_repeats(seen),
    ensures
        status_labels_problem_from(c, seen, t) is None <==> (forall|u: int|
            t <= u < c.status_label_mappings@.len() ==> target_ids().contains(
                (#[trigger] c.status_label_mappings@[u]).0,
            ) && labels_are_valid(c, c.status_label_mappings@[u].1@)) && no_repeats(
            seen + label_names_from(c, t),
        ),
    decreases c.status_label_mappings@.len() - t,
{
    if t == c.status_label_mappings@.len() {
        assert(seen + label_names_from(c, t) =~= seen);
    } else {
        let (tracker_id, labels) = c.status_label_mappings@[t];
        let names = label_texts(labels@);
        let rest = label_names_from(c, t + 1);
        assert(names.subrange(0, labels@.len() as int) =~= names);
        assert(seen + label_names_from(c, t) =~= (seen + names) + rest);
        lemma_label_entries_pass(c, tracker_id, seen, labels@, 0);
        if !target_ids().contains(tracker_id) {
        } else {
            match label_entries_problem(c.status_names(), tracker_id, seen, labels@, 0) {
                Err(e) => {
                    if no_repeats((seen + names) + rest) {
                        lemma_no_repeats_prefix(seen + names, rest);
                    }
                },
                Ok(next) => {
                    lemma_status_labels_pass(c, next, t + 1);
                },
            }
        }
    }
}

/// Settings pass the check exactly when they meet every condition of
/// `config_is_valid`: at least one project, each with a positive ID of its
/// own and a name; a page size from 1 to 100 and from 1 to 32 concurrent
/// requests; tracker mappings for exactly the target trackers, each naming
/// its tracker as Redmine does with a valid form mapping; exactly the
/// excluded trackers, with their names; status labels only for target
/// trackers and mapped statuses, each named, no name twice; mappings for
/// exactly the dedicated inquiry routes, each valid; and mapped portal
/// statuses that the portal has.
pub proof fn lemma_config_check_is_one_condition(c: Config)
    ensures
        config_problem(c) is None <==> config_is_valid(c),
{
    lemma_projects_pass(c.redmine_projects@, 0);
    lemma_trackers_pass(c, 0);
    lemma_inquiries_pass(c, 0);
    lemma_portal_statuses_pass(c.status_mapping@, 0);
    lemma_status_labels_pass(c, Seq::empty(), 0);
    assert(Seq::<Seq<char>>::empty() + label_names_from(c, 0) =~= label_names_from(c, 0));
}

impl Config {
    /// Each table of the settings holds every key once, as the maps that the
    /// settings file is read into do: project IDs, Redmine status names,
    /// tracker IDs of the status labels and of the mappings, the status names
    /// within each tracker's labels, inquiry routes and excluded tracker IDs.
    pub open spec fn keys_are_unique(&self) -> bool {
        &&& no_repeats(self.project_ids())
        &&& no_repeats(text_keys(self.status_mapping@))
        &&& no_repeats(int_keys(self.status_label_mappings@))
        &&& forall|t: int|
            0 <= t < self.status_label_mappings@.len() ==> no_repeats(
                text_keys((#[trigger] self.status_label_mappings@[t]).1@),
            )
        &&& no_repeats(int_keys(self.tracker_mappings@))
        &&& no_repeats(self.inquiry_routes())
        &&& no_repeats(int_keys(self.excluded_trackers@))
    }

    /// Whether each table of the settings holds every key once.
    pub fn has_unique_keys(&self) -> (r: bool)
        ensures
            r == self.keys_are_unique(),
    {
        let mut project_ids: Vec<i64> = Vec::new();
        let mut i: usize = 0;
        while i < self.redmine_projects.len()
            invariant
                i <= self.redmine_projects@.len(),
                project_ids@ == self.project_ids().subrange(0, i as int),
            decreases self.redmine_projects@.len() - i,
        {
            project_ids.push(self.redmine_projects[i].id);
            i = i + 1;
            assert(project_ids@ =~= self.project_ids().subrange(0, i as int));
        }
        assert(project_ids@ =~= self.project_ids());
        if !ids_without_repeats(&project_ids) {
            return false;
        }
        if !texts_without_repeats(&text_key_list(&self.status_mapping)) {
            return false;
        }
        if !ids_without_repeats(&key_list(&self.status_label_mappings)) {
            return false;
        }
        let mut t: usize = 0;
        while t < self.status_label_mappings.len()
            invariant
                t <= self.status_label_mappings@.len(),
                forall|u: int|
                    0 <= u < t ==> no_repeats(text_keys((#[trigger] self.status_label_mappings@[u]).1@)),
            decreases self.status_label_mappings@.len() - t,
        {
            if !texts_without_repeats(&text_key_list(&self.status_label_mappings[t].1)) {
                return false;
            }
            t = t + 1;
        }
        if !ids_without_repeats(&key_list(&self.tracker_mappings)) {
            return false;
        }
        let mut a: usize = 0;
        while a < self.inquiry_mappings.len()
            invariant
                a <= self.inquiry_mappings@.len(),
                forall|x: int, y: int|
                    0 <= x < y < a ==> self.inquiry_routes()[x] != self.inquiry_routes()[y],
            decreases self.inquiry_mappings@.len() - a,
        {
            let mut b: usize = 0;
            while b < a
                invariant
                    a < self.inquiry_mappings@.len(),
                    b <= a,
                    forall|x: int| 0 <= x < b ==> self.inquiry_routes()[x] != self.inquiry_routes()[a as int],
                decreases a - b,
            {
                if self.inquiry_mappings[b].0 == self.inquiry_mappings[a].0 {
                    assert(self.inquiry_routes()[b as int] == self.inquiry_routes()[a as int]);
                    return false;
                }
                b = b + 1;
            }
            a = a + 1;
        }
        ids_without_repeats(&key_list(&self.excluded_trackers))
    }
}

/// With unique keys, each lookup by key finds the entry that holds the key:
/// the project, the status, the tracker's labels, the status among them, the
/// tracker mapping and the inquiry mapping.
pub proof fn lemma_unique_keys_find_their_entry(c: Config)
    requires
        c.keys_are_unique(),
    ensures
        forall|k: int|
            0 <= k < c.redmine_projects@.len() ==> position(
                c.project_ids(),
                (#[trigger] c.redmine_projects@[k]).id,
            ) == Some(k),
        forall|k: int|
            0 <= k < c.status_mapping@.len() ==> position(
                text_keys(c.status_mapping@),
                (#[trigger] c.status_mapping@[k]).0@,
            ) == Some(k),
        forall|t: int, k: int|
            0 <= t < c.status_label_mappings@.len() && 0 <= k < c.status_label_mappings@[t].1@.len()
                ==> position(int_keys(c.status_label_mappings@), c.status_label_mappings@[t].0)
                == Some(t) && position(
                text_keys(c.status_label_mappings@[t].1@),
                (#[trigger] c.status_label_mappings@[t].1@[k]).0@,
            ) == Some(k),
        forall|k: int|
            0 <= k < c.tracker_mappings@.len() ==> position(
                int_keys(c.tracker_mappings@),
                (#[trigger] c.tracker_mappings@[k]).0,
            ) == Some(k),
        forall|k: int|
            0 <= k < c.inquiry_mappings@.len() ==> position(
                c.inquiry_routes(),
                (#[trigger] c.inquiry_mappings@[k]).0,
            ) == Some(k),
{
    assert forall|k: int| 0 <= k < c.redmine_projects@.len() implies position(
        c.project_ids(),
        (#[trigger] c.redmine_projects@[k]).id,
    ) == Some(k) by {
        lemma_position_of_unique(c.project_ids(), k);
    }
    assert forall|k: int| 0 <= k < c.status_mapping@.len() implies position(
        text_keys(c.status_mapping@),
        (#[trigger] c.status_mapping@[k]).0@,
    ) == Some(k) by {
        lemma_position_of_unique(text_keys(c.status_mapping@), k);
    }
    assert forall|t: int, k: int|
        0 <= t < c.status_label_mappings@.len() && 0 <= k < c.status_label_mappings@[t].1@.len()
            implies position(int_keys(c.status_label_mappings@), c.status_label_mappings@[t].0)
        == Some(t) && position(
        text_keys(c.status_label_mappings@[t].1@),
        (#[trigger] c.status_label_mappings@[t].1@[k]).0@,
    ) == Some(k) by {
        lemma_position_of_unique(int_keys(c.status_label_mappings@), t);
        assert(no_repeats(text_keys(c.status_label_mappings@[t].1@)));
        lemma_position_of_unique(text_keys(c.status_label_mappings@[t].1@), k);
    }
    assert forall|k: int| 0 <= k < c.tracker_mappings@.len() implies position(
        int_keys(c.tracker_mappings@),
        (#[trigger] c.tracker_mappings@[k]).0,
    ) == Some(k) by {
        lemma_position_of_unique(int_keys(c.tracker_mappings@), k);
    }
    assert forall|k: int| 0 <= k < c.inquiry_mappings@.len() implies position(
        c.inquiry_routes(),
        (#[trigger] c.inquiry_mappings@[k]).0,
    ) == Some(k) by {
        lemma_position_of_unique(c.inquiry_routes(), k);
    }
}

fn text_key_list<V>(entries: &Vec<(String, V)>) -> (keys: Vec<String>)
    ensures
        texts(keys@) == text_keys(entries@),
{
    let mut keys: Vec<String> = Vec::new();
    let mut i: usize = 0;
    while i < entries.len()
        invariant
            i <= entries@.len(),
            keys@.len() == i,
            texts(keys@) == text_keys(entries@).subrange(0, i as int),
        decreases entries@.len() - i,
    {
        let ghost before = keys@;
        keys.push(crate::text::string_of(&chars_of(entries[i].0.as_str())));
        proof {
            assert forall|j: int| 0 <= j < i + 1 implies texts(keys@)[j] == text_keys(
                entries@,
            )[j] by {
                if j < i {
                    assert(keys@[j] == before[j]);
                    assert(texts(before)[j] == text_keys(entries@).subrange(0, i as int)[j]);
                }
            }
        }
        i = i + 1;
        assert(texts(keys@) =~= text_keys(entries@).subrange(0, i as int));
    }
    assert(texts(keys@) =~= text_keys(entries@));
    keys
}

} // verus!
