//! One field of a partial update: left as it is, cleared, or set.

use vstd::prelude::*;

use crate::non_empty_string::NonEmptyString;
use crate::schemas::{AnswerAcceptancePeriodInput, AnswerVisibility};
use crate::text::{chars_of, trim, trim_exec};
use crate::validation::ValidationError;

verus! {

/// One field of a partial update request. An omitted key leaves the field
/// unchanged, an explicit `null` clears it, and a value sets it.
#[derive(Debug)]
pub enum FieldUpdate<T> {
    Unchanged,
    Clear,
    SetTo(T),
}

impl<T> Default for FieldUpdate<T> {
    /// An omitted key.
    fn default() -> (r: Self)
        ensures
            r is Unchanged,
    {
        FieldUpdate::Unchanged
    }
}

impl<T> FieldUpdate<T> {
    /// The update for a key that is present: `null` clears the field, a value
    /// sets it.
    pub fn from_present(value: Option<T>) -> (r: Self)
        ensures
            match value {
                Some(v) => r == FieldUpdate::SetTo(v),
                None => r is Clear,
            },
    {
        match value {
            Some(v) => FieldUpdate::SetTo(v),
            None => FieldUpdate::Clear,
        }
    }

    /// The setting that the update asks for: nothing where the field is
    /// left as it is, no value where it is cleared, the value where it is
    /// set.
    pub fn into_setting(self) -> (r: Option<Option<T>>)
        ensures
            match self {
                FieldUpdate::Unchanged => r is None,
                FieldUpdate::Clear => r == Some(None::<T>),
                FieldUpdate::SetTo(v) => r == Some(Some(v)),
            },
    {
        match self {
            FieldUpdate::Unchanged => None,
            FieldUpdate::Clear => Some(None),
            FieldUpdate::SetTo(v) => Some(Some(v)),
        }
    }
}

/// A default answer title as a settings request gives it: refused where it
/// is empty or only whitespace.
pub fn default_answer_title_from_text(value: &str) -> (r: Result<NonEmptyString, ValidationError>)
    ensures
        match r {
            Ok(title) => trim(value@).len() > 0 && title@ == value@,
            Err(e) => trim(value@).len() == 0 && e == ValidationError::EmptyValue,
        },
{
    if trim_exec(&chars_of(value)).len() == 0 {
        return Err(ValidationError::EmptyValue);
    }
    NonEmptyString::from_text(value)
}

/// The Discord webhook URL that a settings update asks for: unchanged,
/// removed (no URL), or the given URL.
pub fn into_discord_webhook_url(field: FieldUpdate<String>) -> (r: Option<Option<String>>)
    ensures
        match field {
            FieldUpdate::Unchanged => r is None,
            FieldUpdate::Clear => r == Some(None::<String>),
            FieldUpdate::SetTo(url) => r == Some(Some(url)),
        },
{
    field.into_setting()
}

/// The default answer title that a settings update asks for: unchanged,
/// removed (no title), or the given title.
pub fn into_default_answer_title(field: FieldUpdate<NonEmptyString>) -> (r: Option<
    Option<NonEmptyString>,
>)
    ensures
        match field {
            FieldUpdate::Unchanged => r is None,
            FieldUpdate::Clear => r == Some(None::<NonEmptyString>),
            FieldUpdate::SetTo(title) => r == Some(Some(title)),
        },
{
    field.into_setting()
}

/// Who can see a form.
#[derive(Debug, Clone, Copy, PartialEq, Eq, Structural)]
pub enum FormVisibility {
    Public,
    Private,
}

/// The answer settings of a form update request.
#[derive(Debug)]
pub struct AnswerSettingsRequest {
    pub default_answer_title: FieldUpdate<NonEmptyString>,
    pub visibility: Option<AnswerVisibility>,
    pub acceptance_period: Option<AnswerAcceptancePeriodInput>,
}

/// The settings of a form update request.
#[derive(Debug)]
pub struct FormSettingsRequest {
    pub discord_webhook_url: FieldUpdate<String>,
    pub visibility: Option<FormVisibility>,
    pub allow_temporary_answers: Option<bool>,
    pub answer_settings: Option<AnswerSettingsRequest>,
}

/// What a form update asks of the settings, field by field; `None` leaves
/// a field as it is.
#[derive(Debug)]
pub struct SettingsChanges {
    pub acceptance_period: Option<AnswerAcceptancePeriodInput>,
    pub discord_webhook_url: Option<Option<String>>,
    pub default_answer_title: Option<Option<NonEmptyString>>,
    pub visibility: Option<FormVisibility>,
    pub allow_temporary_answers: Option<bool>,
    pub answer_visibility: Option<AnswerVisibility>,
}

/// The settings changes of a form update: none without settings; else the
/// form's own settings, and the answer settings where they are given.
pub fn settings_changes(settings: Option<FormSettingsRequest>) -> (r: SettingsChanges)
    ensures
        match settings {
            None => {
                &&& r.acceptance_period is None
                &&& r.discord_webhook_url is None
                &&& r.default_answer_title is None
                &&& r.visibility is None
                &&& r.allow_temporary_answers is None
                &&& r.answer_visibility is None
            },
            Some(s) => {
                &&& r.discord_webhook_url == match s.discord_webhook_url {
                    FieldUpdate::Unchanged => None,
                    FieldUpdate::Clear => Some(None::<String>),
                    FieldUpdate::SetTo(url) => Some(Some(url)),
                }
                &&& r.visibility == s.visibility
                &&& r.allow_temporary_answers == s.allow_temporary_answers
                &&& match s.answer_settings {
                    None => {
                        &&& r.acceptance_period is None
                        &&& r.default_answer_title is None
                        &&& r.answer_visibility is None
                    },
                    Some(a) => {
                        &&& r.acceptance_period == a.acceptance_period
                        &&& r.answer_visibility == a.visibility
                        &&& r.default_answer_title == match a.default_answer_title {
                            FieldUpdate::Unchanged => None,
                            FieldUpdate::Clear => Some(None::<NonEmptyString>),
                            FieldUpdate::SetTo(title) => Some(Some(title)),
                        }
                    },
                }
            },
        },
{
    match settings {
        None => SettingsChanges {
            acceptance_period: None,
            discord_webhook_url: None,
            default_answer_title: None,
            visibility: None,
            allow_temporary_answers: None,
            answer_visibility: None,
        },
        Some(s) => {
            let discord_webhook_url = into_discord_webhook_url(s.discord_webhook_url);
            match s.answer_settings {
                None => SettingsChanges {
                    acceptance_period: None,
                    discord_webhook_url,
                    default_answer_title: None,
                    visibility: s.visibility,
                    allow_temporary_answers: s.allow_temporary_answers,
                    answer_visibility: None,
                },
                Some(a) => SettingsChanges {
                    acceptance_period: a.acceptance_period,
                    discord_webhook_url,
                    default_answer_title: into_default_answer_title(a.default_answer_title),
                    visibility: s.visibility,
                    allow_temporary_answers: s.allow_temporary_answers,
                    answer_visibility: a.visibility,
                },
            }
        },
    }
}

} // verus!
