//! The answers that an imported issue gives to the questions of its portal
//! form, and the name under which its author appears.

use vstd::prelude::*;

use crate::lookup::{contains_id, find_int_key, find_text_key, int_keys, lemma_position, position};
use crate::numbers::{decimal_chars, decimal_text};
use crate::redmine::config::{
    is_blank, is_blank_text, Config, ConfigError, FormMapping, QuestionValueSource,
    INQUIRY_TRACKER_ID,
};
use crate::redmine::extract::{
    extract_ipv4_addresses, extract_mod_name, first_url, first_url_text, ipv4_addresses_text,
    is_unfilled, is_unfilled_author_value, join_lines, join_lines_exec, mod_name,
};
use crate::redmine::inquiry::InquiryRoute;
use crate::redmine::model::{CustomFieldValue, RedmineCustomField, RedmineIssue};
use crate::text::{append_chars, append_str, chars_of, string_of, trim, trim_exec};

verus! {

/// The custom field that holds the author's contact.
pub const CONTACT_CUSTOM_FIELD_ID: i64 = 1;

/// The custom field that holds the author's ID.
pub const ID_CUSTOM_FIELD_ID: i64 = 2;

pub open spec fn opt_text(s: Option<String>) -> Option<Seq<char>> {
    match s {
        Some(s) => Some(s@),
        None => None,
    }
}

/// The text of a custom field value; none for null, blank text and empty
/// collections.
pub open spec fn field_text(value: CustomFieldValue) -> Option<Seq<char>> {
    match value {
        CustomFieldValue::Null => None,
        CustomFieldValue::Text(s) => if is_blank(s@) {
            None
        } else {
            Some(s@)
        },
        CustomFieldValue::EmptyArray => None,
        CustomFieldValue::EmptyObject => None,
        CustomFieldValue::Other(rendered) => Some(rendered@),
    }
}

/// The text of a custom field value, if it carries one.
pub fn custom_field_value(value: &CustomFieldValue) -> (r: Option<String>)
    ensures
        opt_text(r) == field_text(*value),
{
    match value {
        CustomFieldValue::Null => None,
        CustomFieldValue::Text(s) => {
            if is_blank_text(s.as_str()) {
                None
            } else {
                Some(s.clone())
            }
        },
        CustomFieldValue::EmptyArray => None,
        CustomFieldValue::EmptyObject => None,
        CustomFieldValue::Other(rendered) => Some(rendered.clone()),
    }
}

/// The first filled value, trimmed, among the fields from `i` on that have
/// the ID `field_id`.
pub open spec fn meaningful_from(fields: Seq<RedmineCustomField>, field_id: i64, i: int) -> Option<
    Seq<char>,
>
    decreases fields.len() - i,
{
    if i < 0 || i >= fields.len() {
        None
    } else if fields[i].id == field_id && field_text(fields[i].value) is Some && !is_unfilled(
        trim(field_text(fields[i].value)->0),
    ) {
        Some(trim(field_text(fields[i].value)->0))
    } else {
        meaningful_from(fields, field_id, i + 1)
    }
}

fn meaningful_author_custom_field_value(fields: &[RedmineCustomField], field_id: i64) -> (r:
    Option<String>)
    ensures
        opt_text(r) == meaningful_from(fields@, field_id, 0),
{
    let mut i: usize = 0;
    while i < fields.len()
        invariant
            i <= fields@.len(),
            meaningful_from(fields@, field_id, 0) == meaningful_from(fields@, field_id, i as int),
        decreases fields@.len() - i,
    {
        if fields[i].id == field_id {
            if let Some(v) = custom_field_value(&fields[i].value) {
                let trimmed = string_of(&trim_exec(&chars_of(v.as_str())));
                if !is_unfilled_author_value(trimmed.as_str()) {
                    return Some(trimmed);
                }
            }
        }
        i = i + 1;
    }
    None
}

/// The name of an issue's author: the ID and contact that the author gave
/// in the custom fields, either alone where only one is filled, or else the
/// name that Redmine shows.
pub open spec fn author_display_name(original: Seq<char>, fields: Seq<RedmineCustomField>) -> Seq<
    char,
> {
    let contact = meaningful_from(fields, CONTACT_CUSTOM_FIELD_ID, 0);
    let id = meaningful_from(fields, ID_CUSTOM_FIELD_ID, 0);
    match (id, contact) {
        (Some(i), Some(c)) => "ID: "@ + i + " / 連絡先: "@ + c,
        (Some(i), None) => i,
        (None, Some(c)) => c,
        (None, None) => original,
    }
}

pub fn redmine_author_display_name(original_name: &str, custom_fields: &[RedmineCustomField]) -> (r:
    String)
    ensures
        r@ == author_display_name(original_name@, custom_fields@),
{
    let contact = meaningful_author_custom_field_value(custom_fields, CONTACT_CUSTOM_FIELD_ID);
    let id = meaningful_author_custom_field_value(custom_fields, ID_CUSTOM_FIELD_ID);
    match (id, contact) {
        (Some(id), Some(contact)) => {
            let mut out: Vec<char> = Vec::new();
            append_str(&mut out, "ID: ");
            append_str(&mut out, id.as_str());
            append_str(&mut out, " / 連絡先: ");
            append_str(&mut out, contact.as_str());
            string_of(&out)
        },
        (Some(id), None) => id,
        (None, Some(contact)) => contact,
        (None, None) => string_of(&chars_of(original_name)),
    }
}

/// The line that lists a custom field in an answer's text.
pub open spec fn field_line(name: Seq<char>, id: i64, value: Seq<char>) -> Seq<char> {
    "- "@ + name + " (ID: "@ + decimal_text(id as int) + "): "@ + value
}

/// The lines for the filled custom fields whose IDs `excluded` does not
/// hold, in order.
pub open spec fn block_lines(fields: Seq<RedmineCustomField>, excluded: Seq<i64>) -> Seq<Seq<char>>
    decreases fields.len(),
{
    if fields.len() == 0 {
        Seq::empty()
    } else {
        let rest = block_lines(fields.drop_last(), excluded);
        let f = fields.last();
        if !excluded.contains(f.id) && field_text(f.value) is Some {
            rest.push(field_line(f.name@, f.id, field_text(f.value)->0))
        } else {
            rest
        }
    }
}

/// The section that lists the custom fields that no question takes, if
/// there is any.
pub open spec fn field_block(fields: Seq<RedmineCustomField>, excluded: Seq<i64>) -> Option<
    Seq<char>,
> {
    let lines = block_lines(fields, excluded);
    if lines.len() == 0 {
        None
    } else {
        Some("---\nRedmine カスタムフィールド:\n"@ + join_lines(lines))
    }
}

/// No filled custom field is lost: each one that no question takes is
/// listed in the section appended to the content question.
pub proof fn lemma_unmapped_fields_are_listed(
    fields: Seq<RedmineCustomField>,
    excluded: Seq<i64>,
    k: int,
)
    requires
        0 <= k < fields.len(),
        !excluded.contains(fields[k].id),
        field_text(fields[k].value) is Some,
    ensures
        block_lines(fields, excluded).contains(
            field_line(fields[k].name@, fields[k].id, field_text(fields[k].value)->0),
        ),
    decreases fields.len(),
{
    let line = field_line(fields[k].name@, fields[k].id, field_text(fields[k].value)->0);
    let rest = block_lines(fields.drop_last(), excluded);
    if k == fields.len() - 1 {
        assert(block_lines(fields, excluded) == rest.push(line));
        assert(block_lines(fields, excluded)[rest.len() as int] == line);
    } else {
        assert(fields.drop_last()[k] == fields[k]);
        lemma_unmapped_fields_are_listed(fields.drop_last(), excluded, k);
        let i = choose|i: int| 0 <= i < rest.len() && rest[i] == line;
        assert(block_lines(fields, excluded)[i] == line);
    }
}

fn custom_field_block(fields: &[RedmineCustomField], excluded_field_ids: &Vec<i64>) -> (r: Option<
    String,
>)
    ensures
        opt_text(r) == field_block(fields@, excluded_field_ids@),
{
    let mut lines: Vec<Vec<char>> = Vec::new();
    let mut i: usize = 0;
    while i < fields.len()
        invariant
            i <= fields@.len(),
            lines.deep_view() == block_lines(fields@.subrange(0, i as int), excluded_field_ids@),
        decreases fields@.len() - i,
    {
        let field = &fields[i];
        proof {
            assert(fields@.subrange(0, i + 1).drop_last() =~= fields@.subrange(0, i as int));
            assert(fields@.subrange(0, i + 1).last() == *field);
        }
        if !contains_id(excluded_field_ids, field.id) {
            if let Some(value) = custom_field_value(&field.value) {
                let mut line: Vec<char> = Vec::new();
                append_str(&mut line, "- ");
                append_str(&mut line, field.name.as_str());
                append_str(&mut line, " (ID: ");
                let digits = decimal_chars(field.id);
                append_chars(&mut line, &digits);
                append_str(&mut line, "): ");
                append_str(&mut line, value.as_str());
                let ghost before = lines.deep_view();
                assert(line.deep_view() =~= line@);
                lines.push(line);
                assert(lines.deep_view() =~= before.push(line@));
            }
        }
        i = i + 1;
    }
    assert(fields@.subrange(0, fields@.len() as int) =~= fields@);
    if lines.len() == 0 {
        return None;
    }
    let mut out: Vec<char> = Vec::new();
    append_str(&mut out, "---\nRedmine カスタムフィールド:\n");
    let joined = join_lines_exec(&lines);
    append_chars(&mut out, &joined);
    Some(string_of(&out))
}

/// The answer that a value source gives for an issue.
pub open spec fn resolved(source: QuestionValueSource, subject: Seq<char>, description: Seq<char>) -> Seq<
    char,
> {
    match source {
        QuestionValueSource::Subject => subject,
        QuestionValueSource::Description => description,
        QuestionValueSource::SubjectAndDescription => if description.len() == 0 {
            subject
        } else {
            subject + seq!['\n', '\n'] + description
        },
        QuestionValueSource::ModName => mod_name(subject),
        QuestionValueSource::FirstUrl => first_url_text(subject, description),
        QuestionValueSource::Ipv4Addresses => ipv4_addresses_text(subject, description),
        QuestionValueSource::Static { value } => value@,
    }
}

impl QuestionValueSource {
    /// The answer that this source gives for an issue with this subject and
    /// description.
    pub fn resolve(&self, subject: &str, description: &str) -> (r: String)
        ensures
            r@ == resolved(*self, subject@, description@),
    {
        match self {
            QuestionValueSource::Subject => string_of(&chars_of(subject)),
            QuestionValueSource::Description => string_of(&chars_of(description)),
            QuestionValueSource::SubjectAndDescription => {
                if description.unicode_len() == 0 {
                    string_of(&chars_of(subject))
                } else {
                    let mut out = chars_of(subject);
                    out.push('\n');
                    out.push('\n');
                    append_str(&mut out, description);
                    assert(out@ =~= subject@ + seq!['\n', '\n'] + description@);
                    string_of(&out)
                }
            },
            QuestionValueSource::ModName => extract_mod_name(subject, description),
            QuestionValueSource::FirstUrl => first_url(subject, description),
            QuestionValueSource::Ipv4Addresses => extract_ipv4_addresses(subject, description),
            QuestionValueSource::Static { value } => value.clone(),
        }
    }
}

/// Question answers as text pairs: template key and answer.
pub open spec fn answer_texts(values: Seq<(String, String)>) -> Seq<(Seq<char>, Seq<char>)> {
    values.map_values(|e: (String, String)| (e.0@, e.1@))
}

pub open spec fn answer_keys(values: Seq<(Seq<char>, Seq<char>)>) -> Seq<Seq<char>> {
    values.map_values(|e: (Seq<char>, Seq<char>)| e.0)
}

/// `values` with the answer of `key` set to `value`: replaced where the key
/// is there, added at the end otherwise.
pub open spec fn set_answer(
    values: Seq<(Seq<char>, Seq<char>)>,
    key: Seq<char>,
    value: Seq<char>,
) -> Seq<(Seq<char>, Seq<char>)> {
    match position(answer_keys(values), key) {
        Some(k) => values.update(k, (key, value)),
        None => values.push((key, value)),
    }
}

/// The answers of the questions that a mapping fills from its value sources.
pub open spec fn base_answers(
    questions: Seq<(String, QuestionValueSource)>,
    subject: Seq<char>,
    description: Seq<char>,
) -> Seq<(Seq<char>, Seq<char>)> {
    questions.map_values(
        |e: (String, QuestionValueSource)| (e.0@, resolved(e.1, subject, description)),
    )
}

pub open spec fn field_ids(fields: Seq<RedmineCustomField>) -> Seq<i64> {
    fields.map_values(|f: RedmineCustomField| f.id)
}

/// The answers after the custom field questions from `i` on: each takes the
/// value of the first custom field with its ID, where that one is filled.
pub open spec fn with_custom_answers(
    values: Seq<(Seq<char>, Seq<char>)>,
    custom: Seq<(i64, String)>,
    fields: Seq<RedmineCustomField>,
    i: int,
) -> Seq<(Seq<char>, Seq<char>)>
    decreases custom.len() - i,
{
    if i < 0 || i >= custom.len() {
        values
    } else {
        let (field_id, key) = custom[i];
        let next = match position(field_ids(fields), field_id) {
            Some(f) => match field_text(fields[f].value) {
                Some(v) => set_answer(values, key@, v),
                None => values,
            },
            None => values,
        };
        with_custom_answers(next, custom, fields, i + 1)
    }
}

pub open spec fn description_text(description: Option<String>) -> Seq<char> {
    match description {
        Some(d) => d@,
        None => Seq::empty(),
    }
}

/// The answers that an issue gives to the questions of a form mapping. The
/// custom fields that no question takes are appended to the content
/// question, which has to be there when there are any.
pub open spec fn question_answers(m: FormMapping, issue: RedmineIssue) -> Result<
    Seq<(Seq<char>, Seq<char>)>,
    ConfigError,
> {
    let values = with_custom_answers(
        base_answers(m.question_mappings@, issue.subject@, description_text(issue.description)),
        m.custom_field_question_mappings@,
        issue.custom_fields@,
        0,
    );
    match field_block(issue.custom_fields@, int_keys(m.custom_field_question_mappings@)) {
        None => Ok(values),
        Some(block) => match position(answer_keys(values), m.custom_field_content_template_key@) {
            None => Err(
                ConfigError::MissingContentQuestion {
                    template_key: m.custom_field_content_template_key,
                },
            ),
            Some(k) => {
                let content = values[k].1;
                let text = if content.len() == 0 {
                    block
                } else {
                    content + seq!['\n', '\n'] + block
                };
                Ok(values.update(k, (values[k].0, text)))
            },
        },
    }
}

fn answer_position(values: &Vec<(String, String)>, key: &str) -> (r: Option<usize>)
    ensures
        match position(answer_keys(answer_texts(values@)), key@) {
            Some(k) => r matches Some(i) && i == k,
            None => r is None,
        },
        r matches Some(k) ==> k < values@.len(),
{
    assert(answer_keys(answer_texts(values@)) =~= crate::lookup::text_keys(values@));
    find_text_key(values, key)
}

fn set_answer_exec(values: &mut Vec<(String, String)>, key: &String, value: String)
    ensures
        answer_texts(final(values)@) == set_answer(answer_texts(old(values)@), key@, value@),
{
    let ghost before = answer_texts(values@);
    match answer_position(values, key.as_str()) {
        Some(k) => {
            values.set(k, (key.clone(), value));
            assert(answer_texts(values@) =~= before.update(k as int, (key@, value@)));
        },
        None => {
            values.push((key.clone(), value));
            assert(answer_texts(values@) =~= before.push((key@, value@)));
        },
    }
}

fn field_position(fields: &Vec<RedmineCustomField>, field_id: i64) -> (r: Option<usize>)
    ensures
        match position(field_ids(fields@), field_id) {
            Some(k) => r matches Some(i) && i == k,
            None => r is None,
        },
        r matches Some(k) ==> k < fields@.len(),
{
    proof {
        lemma_position(field_ids(fields@), field_id);
    }
    let ghost ids = field_ids(fields@);
    let mut i: usize = 0;
    while i < fields.len()
        invariant
            i <= fields@.len(),
            ids == field_ids(fields@),
            position(ids, field_id) == crate::lookup::position_from(ids, field_id, i as int),
        decreases fields@.len() - i,
    {
        if fields[i].id == field_id {
            return Some(i);
        }
        i = i + 1;
    }
    None
}

/// The answers that an issue gives to the questions of a form mapping.
pub fn question_values_for_mapping(mapping: &FormMapping, issue: &RedmineIssue) -> (r: Result<
    Vec<(String, String)>,
    ConfigError,
>)
    ensures
        match question_answers(*mapping, *issue) {
            Ok(values) => r matches Ok(v) && answer_texts(v@) == values,
            Err(e) => r == Err::<Vec<(String, String)>, ConfigError>(e),
        },
{
    let description: &str = match &issue.description {
        Some(d) => d.as_str(),
        None => "",
    };
    proof {
        reveal_strlit("");
    }
    assert(description@ == description_text(issue.description));
    let questions = &mapping.question_mappings;
    let mut values: Vec<(String, String)> = Vec::new();
    let mut i: usize = 0;
    while i < questions.len()
        invariant
            i <= questions@.len(),
            questions == &mapping.question_mappings,
            description@ == description_text(issue.description),
            values@.len() == i,
            forall|k: int|
                0 <= k < i ==> #[trigger] answer_texts(values@)[k] == base_answers(
                    questions@,
                    issue.subject@,
                    description@,
                )[k],
        decreases questions@.len() - i,
    {
        let answer = questions[i].1.resolve(issue.subject.as_str(), description);
        let ghost before = values@;
        values.push((questions[i].0.clone(), answer));
        assert(answer_texts(values@)[i as int] == base_answers(
            questions@,
            issue.subject@,
            description@,
        )[i as int]);
        assert forall|k: int| 0 <= k < i implies #[trigger] answer_texts(values@)[k] == base_answers(
            questions@,
            issue.subject@,
            description@,
        )[k] by {
            assert(values@[k] == before[k]);
            assert(answer_texts(before)[k] == base_answers(
                questions@,
                issue.subject@,
                description@,
            )[k]);
        }
        i = i + 1;
    }
    assert(answer_texts(values@) =~= base_answers(questions@, issue.subject@, description@));
    let custom = &mapping.custom_field_question_mappings;
    let ghost all_custom = with_custom_answers(
        base_answers(questions@, issue.subject@, description@),
        custom@,
        issue.custom_fields@,
        0,
    );
    let mut c: usize = 0;
    while c < custom.len()
        invariant
            c <= custom@.len(),
            custom == &mapping.custom_field_question_mappings,
            all_custom == with_custom_answers(
                answer_texts(values@),
                custom@,
                issue.custom_fields@,
                c as int,
            ),
        decreases custom@.len() - c,
    {
        let field_id = custom[c].0;
        match field_position(&issue.custom_fields, field_id) {
            Some(f) => {
                match custom_field_value(&issue.custom_fields[f].value) {
                    Some(v) => set_answer_exec(&mut values, &custom[c].1, v),
                    None => {},
                }
            },
            None => {},
        }
        c = c + 1;
    }
    let mut mapped: Vec<i64> = Vec::new();
    let mut k: usize = 0;
    while k < custom.len()
        invariant
            k <= custom@.len(),
            custom == &mapping.custom_field_question_mappings,
            mapped@ == int_keys(custom@).subrange(0, k as int),
        decreases custom@.len() - k,
    {
        mapped.push(custom[k].0);
        k = k + 1;
        assert(mapped@ =~= int_keys(custom@).subrange(0, k as int));
    }
    assert(mapped@ =~= int_keys(custom@));
    match custom_field_block(issue.custom_fields.as_slice(), &mapped) {
        None => Ok(values),
        Some(block) => {
            match answer_position(&values, mapping.custom_field_content_template_key.as_str()) {
                None => Err(
                    ConfigError::MissingContentQuestion {
                        template_key: mapping.custom_field_content_template_key.clone(),
                    },
                ),
                Some(p) => {
                    let ghost before = answer_texts(values@);
                    let mut text = chars_of(values[p].1.as_str());
                    if text.len() > 0 {
                        text.push('\n');
                        text.push('\n');
                    }
                    append_str(&mut text, block.as_str());
                    assert(text@ =~= (if before[p as int].1.len() == 0 {
                        block@
                    } else {
                        before[p as int].1 + seq!['\n', '\n'] + block@
                    }));
                    let key = values[p].0.clone();
                    values.set(p, (key, string_of(&text)));
                    assert(answer_texts(values@) =~= before.update(
                        p as int,
                        (before[p as int].0, answer_texts(values@)[p as int].1),
                    ));
                    Ok(values)
                },
            }
        },
    }
}

impl Config {
    /// The answers that an issue of a tracker gives to the questions of the
    /// tracker's form.
    pub fn question_values_for(&self, tracker_id: i64, issue: &RedmineIssue) -> (r: Result<
        Vec<(String, String)>,
        ConfigError,
    >)
        ensures
            match position(int_keys(self.tracker_mappings@), tracker_id) {
                Some(k) => match question_answers(self.tracker_mappings@[k].1, *issue) {
                    Ok(values) => r matches Ok(v) && answer_texts(v@) == values,
                    Err(e) => r == Err::<Vec<(String, String)>, ConfigError>(e),
                },
                None => r == Err::<Vec<(String, String)>, ConfigError>(
                    ConfigError::UnknownTracker { tracker_id },
                ),
            },
    {
        let mapping = self.form_mapping_for(tracker_id, None)?;
        question_values_for_mapping(mapping, issue)
    }

    /// The answers that an inquiry gives to the questions of the form of its
    /// route.
    pub fn question_values_for_inquiry(&self, route: InquiryRoute, issue: &RedmineIssue) -> (r:
        Result<Vec<(String, String)>, ConfigError>)
        ensures
            match position(self.inquiry_routes(), route) {
                Some(k) => match question_answers(self.inquiry_mappings@[k].1, *issue) {
                    Ok(values) => r matches Ok(v) && answer_texts(v@) == values,
                    Err(e) => r == Err::<Vec<(String, String)>, ConfigError>(e),
                },
                None => r == Err::<Vec<(String, String)>, ConfigError>(
                    ConfigError::UnknownInquiryRoute { route },
                ),
            },
    {
        let mapping = self.form_mapping_for(INQUIRY_TRACKER_ID, Some(route))?;
        question_values_for_mapping(mapping, issue)
    }
}

} // verus!
