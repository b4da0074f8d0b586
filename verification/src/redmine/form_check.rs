//! Whether a form mapping fits the portal form it points to: every required
//! question is filled, every mapped question exists, and the questions that
//! receive custom fields are of a kind that can hold them.

use vstd::prelude::*;

use crate::lookup::{text_keys, texts};
use crate::redmine::config::FormMapping;
use crate::text::text_equal;

verus! {

/// The kinds of question a portal form has.
#[derive(Debug, Clone, Copy, PartialEq, Eq, Structural)]
pub enum QuestionType {
    Text,
    SingleChoice,
    MultipleChoice,
}

/// A question of a portal form, as far as the check reads it.
#[derive(Debug, Clone)]
pub struct FormQuestion {
    pub template_key: String,
    pub is_required: bool,
    pub question_type: QuestionType,
}

/// What does not fit between a mapping and its form.
#[derive(Debug, Clone, PartialEq, Eq)]
pub enum MappingIssue {
    /// A required question that nothing fills.
    RequiredQuestionUnmapped { template_key: String },
    /// A mapped question that the form does not have.
    MappedQuestionMissing { template_key: String },
    /// The question for the leftover custom fields is not in the form.
    ContentQuestionMissing { template_key: String },
    /// The question for the leftover custom fields is not a text question.
    ContentQuestionNotText { template_key: String },
    /// A custom field's question is not in the form.
    CustomFieldQuestionMissing { field_id: i64, template_key: String },
}

pub open spec fn question_keys(questions: Seq<FormQuestion>) -> Seq<Seq<char>> {
    questions.map_values(|q: FormQuestion| q.template_key@)
}

/// The keys that the mapping fills: its questions and its custom fields'
/// questions.
pub open spec fn filled_keys(m: FormMapping) -> Seq<Seq<char>> {
    text_keys(m.question_mappings@) + m.custom_field_question_mappings@.map_values(
        |e: (i64, String)| e.1@,
    )
}

/// The first question, from `i` on, with the key `key`.
pub open spec fn first_question_from(questions: Seq<FormQuestion>, key: Seq<char>, i: int) -> Option<
    FormQuestion,
>
    decreases questions.len() - i,
{
    if i < 0 || i >= questions.len() {
        None
    } else if questions[i].template_key@ == key {
        Some(questions[i])
    } else {
        first_question_from(questions, key, i + 1)
    }
}

/// The first required question, from `i` on, that the mapping leaves empty.
pub open spec fn first_unmapped_required(m: FormMapping, questions: Seq<FormQuestion>, i: int) -> Option<
    FormQuestion,
>
    decreases questions.len() - i,
{
    if i < 0 || i >= questions.len() {
        None
    } else if questions[i].is_required && !filled_keys(m).contains(questions[i].template_key@) {
        Some(questions[i])
    } else {
        first_unmapped_required(m, questions, i + 1)
    }
}

/// The first mapped question key, from `i` on, that the form does not have.
pub open spec fn first_missing_mapped(m: FormMapping, questions: Seq<FormQuestion>, i: int) -> Option<
    String,
>
    decreases m.question_mappings@.len() - i,
{
    if i < 0 || i >= m.question_mappings@.len() {
        None
    } else if !question_keys(questions).contains(m.question_mappings@[i].0@) {
        Some(m.question_mappings@[i].0)
    } else {
        first_missing_mapped(m, questions, i + 1)
    }
}

/// The issues of the custom field questions from `i` on.
pub open spec fn custom_field_issues_from(m: FormMapping, questions: Seq<FormQuestion>, i: int) -> Seq<
    MappingIssue,
>
    decreases m.custom_field_question_mappings@.len() - i,
{
    if i < 0 || i >= m.custom_field_question_mappings@.len() {
        Seq::empty()
    } else {
        let (field_id, template_key) = m.custom_field_question_mappings@[i];
        let here = match first_question_from(questions, template_key@, 0) {
            None => seq![MappingIssue::CustomFieldQuestionMissing { field_id, template_key }],
            Some(_) => Seq::empty(),
        };
        here + custom_field_issues_from(m, questions, i + 1)
    }
}

/// Everything that does not fit between a mapping and its form, in the order
/// in which it is checked: the first unfilled required question, the first
/// mapped question that is missing, the content question, and each custom
/// field question.
pub open spec fn mapping_issues(m: FormMapping, questions: Seq<FormQuestion>) -> Seq<MappingIssue> {
    let required = match first_unmapped_required(m, questions, 0) {
        Some(q) => seq![MappingIssue::RequiredQuestionUnmapped { template_key: q.template_key }],
        None => Seq::empty(),
    };
    let missing = match first_missing_mapped(m, questions, 0) {
        Some(k) => seq![MappingIssue::MappedQuestionMissing { template_key: k }],
        None => Seq::empty(),
    };
    let content_key = m.custom_field_content_template_key;
    let content = match first_question_from(questions, content_key@, 0) {
        None => seq![MappingIssue::ContentQuestionMissing { template_key: content_key }],
        Some(q) => if q.question_type != QuestionType::Text {
            seq![MappingIssue::ContentQuestionNotText { template_key: content_key }]
        } else {
            Seq::empty()
        },
    };
    required + missing + content + custom_field_issues_from(m, questions, 0)
}

fn find_question(questions: &[FormQuestion], key: &str) -> (r: Option<usize>)
    ensures
        match first_question_from(questions@, key@, 0) {
            Some(q) => r matches Some(i) && i < questions@.len() && questions@[i as int] == q,
            None => r is None,
        },
{
    let mut i: usize = 0;
    while i < questions.len()
        invariant
            i <= questions@.len(),
            first_question_from(questions@, key@, 0) == first_question_from(
                questions@,
                key@,
                i as int,
            ),
        decreases questions@.len() - i,
    {
        if text_equal(questions[i].template_key.as_str(), key) {
            return Some(i);
        }
        i = i + 1;
    }
    None
}

fn is_filled(m: &FormMapping, key: &str) -> (r: bool)
    ensures
        r == filled_keys(*m).contains(key@),
{
    let ghost keys = filled_keys(*m);
    let ghost qn = m.question_mappings@.len();
    let mut i: usize = 0;
    while i < m.question_mappings.len()
        invariant
            i <= m.question_mappings@.len(),
            keys == filled_keys(*m),
            qn == m.question_mappings@.len(),
            forall|k: int| 0 <= k < i ==> keys[k] != key@,
        decreases m.question_mappings@.len() - i,
    {
        if text_equal(m.question_mappings[i].0.as_str(), key) {
            assert(keys[i as int] == key@);
            return true;
        }
        i = i + 1;
    }
    let mut j: usize = 0;
    while j < m.custom_field_question_mappings.len()
        invariant
            j <= m.custom_field_question_mappings@.len(),
            keys == filled_keys(*m),
            qn == m.question_mappings@.len(),
            forall|k: int| 0 <= k < qn + j ==> keys[k] != key@,
        decreases m.custom_field_question_mappings@.len() - j,
    {
        if text_equal(m.custom_field_question_mappings[j].1.as_str(), key) {
            assert(keys[qn + j] == key@);
            return true;
        }
        j = j + 1;
    }
    false
}

fn has_question(questions: &[FormQuestion], key: &str) -> (r: bool)
    ensures
        r == question_keys(questions@).contains(key@),
{
    let mut i: usize = 0;
    while i < questions.len()
        invariant
            i <= questions@.len(),
            forall|k: int| 0 <= k < i ==> question_keys(questions@)[k] != key@,
        decreases questions@.len() - i,
    {
        if text_equal(questions[i].template_key.as_str(), key) {
            assert(question_keys(questions@)[i as int] == key@);
            return true;
        }
        i = i + 1;
    }
    false
}

fn unmapped_required(mapping: &FormMapping, questions: &[FormQuestion]) -> (r: Option<usize>)
    ensures
        match first_unmapped_required(*mapping, questions@, 0) {
            Some(q) => r matches Some(i) && i < questions@.len() && questions@[i as int] == q,
            None => r is None,
        },
{
    let mut i: usize = 0;
    while i < questions.len()
        invariant
            i <= questions@.len(),
            first_unmapped_required(*mapping, questions@, 0) == first_unmapped_required(
                *mapping,
                questions@,
                i as int,
            ),
        decreases questions@.len() - i,
    {
        if questions[i].is_required && !is_filled(mapping, questions[i].template_key.as_str()) {
            return Some(i);
        }
        i = i + 1;
    }
    None
}

fn missing_mapped(mapping: &FormMapping, questions: &[FormQuestion]) -> (r: Option<usize>)
    ensures
        match first_missing_mapped(*mapping, questions@, 0) {
            Some(k) => r matches Some(i) && i < mapping.question_mappings@.len()
                && mapping.question_mappings@[i as int].0 == k,
            None => r is None,
        },
{
    let mut k: usize = 0;
    while k < mapping.question_mappings.len()
        invariant
            k <= mapping.question_mappings@.len(),
            first_missing_mapped(*mapping, questions@, 0) == first_missing_mapped(
                *mapping,
                questions@,
                k as int,
            ),
        decreases mapping.question_mappings@.len() - k,
    {
        if !has_question(questions, mapping.question_mappings[k].0.as_str()) {
            return Some(k);
        }
        k = k + 1;
    }
    None
}

/// Checks a mapping against the questions of its form.
pub fn check_mapping_against_form(mapping: &FormMapping, questions: &[FormQuestion]) -> (r: Vec<
    MappingIssue,
>)
    ensures
        r@ == mapping_issues(*mapping, questions@),
{
    let mut issues: Vec<MappingIssue> = Vec::new();
    if let Some(i) = unmapped_required(mapping, questions) {
        issues.push(
            MappingIssue::RequiredQuestionUnmapped { template_key: questions[i].template_key.clone() },
        );
    }
    if let Some(k) = missing_mapped(mapping, questions) {
        issues.push(
            MappingIssue::MappedQuestionMissing {
                template_key: mapping.question_mappings[k].0.clone(),
            },
        );
    }
    let content_key = &mapping.custom_field_content_template_key;
    match find_question(questions, content_key.as_str()) {
        None => issues.push(
            MappingIssue::ContentQuestionMissing { template_key: content_key.clone() },
        ),
        Some(q) => {
            if questions[q].question_type != QuestionType::Text {
                issues.push(
                    MappingIssue::ContentQuestionNotText { template_key: content_key.clone() },
                );
            }
        },
    }
    let ghost before_custom = issues@;
    let mut c: usize = 0;
    while c < mapping.custom_field_question_mappings.len()
        invariant
            c <= mapping.custom_field_question_mappings@.len(),
            before_custom + custom_field_issues_from(*mapping, questions@, 0) == issues@
                + custom_field_issues_from(*mapping, questions@, c as int),
        decreases mapping.custom_field_question_mappings@.len() - c,
    {
        let field_id = mapping.custom_field_question_mappings[c].0;
        let key = &mapping.custom_field_question_mappings[c].1;
        let ghost here = issues@;
        match find_question(questions, key.as_str()) {
            None => {
                issues.push(
                    MappingIssue::CustomFieldQuestionMissing { field_id, template_key: key.clone() },
                );
            },
            Some(_) => {},
        }
        proof {
            assert(custom_field_issues_from(*mapping, questions@, c as int) == (issues@.subrange(
                here.len() as int,
                issues@.len() as int,
            )) + custom_field_issues_from(*mapping, questions@, c + 1));
            assert(issues@ =~= here + issues@.subrange(here.len() as int, issues@.len() as int));
        }
        c = c + 1;
    }
    assert(issues@ + Seq::<MappingIssue>::empty() =~= issues@);
    issues
}

} // verus!
