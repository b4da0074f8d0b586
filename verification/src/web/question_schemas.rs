//! The questions of a form as a request gives them: a text question, or a
//! single- or multiple-choice question with its choices.

use vstd::prelude::*;

use crate::non_empty_string::NonEmptyString;
use crate::redmine::form_check::QuestionType;
use crate::text::{chars_of, string_of};
use crate::web::api_error::DomainError;

verus! {

#[derive(Debug)]
pub struct ChoiceSchema {
    pub id: Option<i32>,
    pub position: u16,
    pub label: NonEmptyString,
}

#[derive(Debug)]
pub struct QuestionDefinitionSchema {
    /// The UUID of an existing question, by its 128-bit value.
    pub id: Option<u128>,
    pub template_key: String,
    pub position: u16,
    pub title: NonEmptyString,
    pub description: Option<NonEmptyString>,
    pub is_required: bool,
}

#[derive(Debug)]
pub struct TextQuestionSchema {
    pub definition: QuestionDefinitionSchema,
}

#[derive(Debug)]
pub struct SelectQuestionSchema {
    pub definition: QuestionDefinitionSchema,
    pub choices: Vec<ChoiceSchema>,
}

#[derive(Debug)]
pub enum QuestionSchema {
    Text(TextQuestionSchema),
    SingleChoice(SelectQuestionSchema),
    MultipleChoice(SelectQuestionSchema),
}

impl QuestionSchema {
    pub open spec fn spec_definition(&self) -> QuestionDefinitionSchema {
        match self {
            QuestionSchema::Text(q) => q.definition,
            QuestionSchema::SingleChoice(q) => q.definition,
            QuestionSchema::MultipleChoice(q) => q.definition,
        }
    }

    pub open spec fn spec_question_type(&self) -> QuestionType {
        match self {
            QuestionSchema::Text(_) => QuestionType::Text,
            QuestionSchema::SingleChoice(_) => QuestionType::SingleChoice,
            QuestionSchema::MultipleChoice(_) => QuestionType::MultipleChoice,
        }
    }

    /// The choices of a choice question; a text question has none.
    pub open spec fn spec_choices(&self) -> Option<Vec<ChoiceSchema>> {
        match self {
            QuestionSchema::Text(_) => None,
            QuestionSchema::SingleChoice(q) => Some(q.choices),
            QuestionSchema::MultipleChoice(q) => Some(q.choices),
        }
    }

    pub fn definition(&self) -> (r: &QuestionDefinitionSchema)
        ensures
            *r == self.spec_definition(),
    {
        match self {
            QuestionSchema::Text(q) => &q.definition,
            QuestionSchema::SingleChoice(q) => &q.definition,
            QuestionSchema::MultipleChoice(q) => &q.definition,
        }
    }

    pub fn question_type(&self) -> (r: QuestionType)
        ensures
            r == self.spec_question_type(),
    {
        match self {
            QuestionSchema::Text(_) => QuestionType::Text,
            QuestionSchema::SingleChoice(_) => QuestionType::SingleChoice,
            QuestionSchema::MultipleChoice(_) => QuestionType::MultipleChoice,
        }
    }

    pub fn into_parts(self) -> (r: (QuestionType, QuestionDefinitionSchema, Option<Vec<ChoiceSchema>>))
        ensures
            r == (self.spec_question_type(), self.spec_definition(), self.spec_choices()),
    {
        match self {
            QuestionSchema::Text(q) => (QuestionType::Text, q.definition, None),
            QuestionSchema::SingleChoice(q) => (QuestionType::SingleChoice, q.definition, Some(q.choices)),
            QuestionSchema::MultipleChoice(q) => (
                QuestionType::MultipleChoice,
                q.definition,
                Some(q.choices),
            ),
        }
    }

    pub fn into_choices(self) -> (r: Option<Vec<ChoiceSchema>>)
        ensures
            r == self.spec_choices(),
    {
        match self {
            QuestionSchema::Text(_) => None,
            QuestionSchema::SingleChoice(q) => Some(q.choices),
            QuestionSchema::MultipleChoice(q) => Some(q.choices),
        }
    }
}

/// The choices that a question keeps: none where the request gives none or
/// an empty list.
pub fn into_domain_choices(choices: Option<Vec<ChoiceSchema>>) -> (r: Option<Vec<ChoiceSchema>>)
    ensures
        match choices {
            Some(c) => if c@.len() == 0 {
                r is None
            } else {
                r == Some(c)
            },
            None => r is None,
        },
{
    match choices {
        Some(c) => {
            if c.len() == 0 {
                None
            } else {
                Some(c)
            }
        },
        None => None,
    }
}

/// A choice question needs at least one choice.
pub fn required_choices(choices: Option<Vec<ChoiceSchema>>) -> (r: Result<
    Vec<ChoiceSchema>,
    DomainError,
>)
    ensures
        match choices {
            Some(c) => r == Ok::<Vec<ChoiceSchema>, DomainError>(c),
            None => r matches Err(DomainError::InvalidEntity { message }) && message@
                == "choice question must have at least one choice"@,
        },
{
    match choices {
        Some(c) => Ok(c),
        None => Err(
            DomainError::InvalidEntity {
                message: string_of(&chars_of("choice question must have at least one choice")),
            },
        ),
    }
}

} // verus!
