//! The request and response bodies of the HTTP API, as plain data. Their
//! wire form (names, tags, optional keys) is given where they are read and
//! written.

use vstd::prelude::*;

use crate::non_empty_string::NonEmptyString;
use crate::text::{chars_of, string_of};
use crate::web::api_error::{PresentationError, Timestamp};

verus! {

#[derive(Debug, Clone)]
pub struct LabelSchema {
    pub name: String,
}

/// Who sent a message.
#[derive(Debug, Clone)]
pub struct SenderSchema {
    pub uuid: String,
    pub name: String,
    pub role: String,
}

/// A page of forms: at most `limit`, after `cursor`.
#[derive(Debug, Clone)]
pub struct FormListQuery {
    pub limit: Option<u32>,
    pub cursor: Option<String>,
}

#[derive(Debug, Clone)]
pub struct ArchivedFormListQuery {
    pub limit: Option<u32>,
    pub cursor: Option<String>,
    pub query: Option<String>,
}

#[derive(Debug, Clone)]
pub struct HistoryListQuery {
    pub limit: Option<u32>,
    pub cursor: Option<String>,
}

/// The period in which a form takes answers, as RFC 3339 texts.
#[derive(Debug, Clone)]
pub struct AnswerAcceptancePeriodInput {
    pub start_at: Option<String>,
    pub end_at: Option<String>,
}

#[derive(Debug, Clone)]
pub struct TemporaryUserCreateSchema {
    pub name: NonEmptyString,
    pub contact_text: NonEmptyString,
}

#[derive(Debug, Clone)]
pub struct CommentUpdateSchema {
    pub content: Option<NonEmptyString>,
}

#[derive(Debug, Clone)]
pub struct FormLabelCreateSchema {
    pub name: NonEmptyString,
}

#[derive(Debug, Clone)]
pub struct FormLabelUpdateSchema {
    pub name: Option<NonEmptyString>,
}

#[derive(Debug, Clone)]
pub struct AnswerLabelSchema {
    pub name: NonEmptyString,
}

#[derive(Debug, Clone)]
pub struct AnswerLabelUpdateSchema {
    pub name: Option<NonEmptyString>,
}

#[derive(Debug, Clone)]
pub struct MessageUpdateSchema {
    pub body: Option<NonEmptyString>,
}

#[derive(Debug, Clone, Copy, PartialEq, Eq, Structural)]
pub enum AnswerVisibility {
    Public,
    Private,
}

#[derive(Debug, Clone, Copy, PartialEq, Eq, Structural)]
pub enum AnswerPublication {
    Public,
    Private,
}

#[derive(Debug, Clone, Copy, PartialEq, Eq, Structural)]
pub enum AnswerStatus {
    Unaddressed,
    InProgress,
    Completed,
}

#[derive(Debug, Clone)]
pub struct QuestionDefinitionResponseSchema {
    pub id: String,
    pub template_key: String,
    pub position: u16,
    pub title: String,
    pub description: Option<String>,
    pub is_required: bool,
}

#[derive(Debug, Clone)]
pub struct TextQuestionResponseSchema {
    pub definition: QuestionDefinitionResponseSchema,
}

#[derive(Debug, Clone)]
pub struct SelectQuestionResponseSchema {
    pub definition: QuestionDefinitionResponseSchema,
    pub choices: Vec<ChoiceResponseSchema>,
}

#[derive(Debug, Clone)]
pub enum QuestionResponseSchema {
    Text(TextQuestionResponseSchema),
    SingleChoice(SelectQuestionResponseSchema),
    MultipleChoice(SelectQuestionResponseSchema),
}

#[derive(Debug, Clone)]
pub struct ChoiceResponseSchema {
    pub id: Option<i32>,
    pub position: u16,
    pub label: String,
}

#[derive(Debug, Clone)]
pub struct FormLabelResponseSchema {
    pub id: String,
    pub name: String,
}

#[derive(Debug, Clone)]
pub struct AnswerLabelResponseSchema {
    pub id: String,
    pub name: String,
}

#[derive(Debug, Clone, Copy, PartialEq, Eq, Structural)]
pub enum Role {
    StandardUser,
    Administrator,
}

#[derive(Debug, Clone)]
pub struct User {
    pub uuid: String,
    pub name: String,
    pub role: Role,
}

#[derive(Debug, Clone)]
pub struct TemporaryAnswerAuthor {
    pub id: String,
    pub name: String,
    pub contact_text: String,
}

#[derive(Debug, Clone)]
pub struct RedmineUserSnapshotResponse {
    pub redmine_user_id: Option<i64>,
    pub display_name: String,
}

/// Who wrote an answer, as far as the reader may know.
#[derive(Debug, Clone)]
pub enum AnswerAuthor {
    AuthenticatedUser { user: User },
    Temporary { temporary_user: TemporaryAnswerAuthor },
    ImportedFromRedmine { redmine_user: RedmineUserSnapshotResponse },
    Anonymous,
}

#[derive(Debug, Clone)]
pub struct AnswerContent {
    pub question_id: String,
    pub answer: String,
}

#[derive(Debug, Clone)]
pub struct AnswerLabels {
    pub id: String,
    pub name: String,
}

/// An answer as the API shows it; a redacted one shows only which answer of
/// which form it is, and its values.
#[derive(Debug)]
pub struct FormAnswer {
    pub id: String,
    pub author: AnswerAuthor,
    pub form_id: String,
    pub timestamp: Timestamp,
    pub title: Option<String>,
    pub publication: AnswerPublication,
    pub status: AnswerStatus,
    pub answers: Vec<AnswerContent>,
    pub labels: Vec<AnswerLabels>,
    pub redmine_issue_id: Option<i64>,
    pub redacted: bool,
}

/// The fields of an answer that are written out.
#[derive(Debug)]
pub enum FormAnswerBody {
    Full(FormAnswer),
    Restricted { id: String, form_id: String, answers: Vec<AnswerContent> },
}

impl FormAnswer {
    /// What is written out: a redacted answer gives only its ID, its form's
    /// ID and its values; any other answer gives every field.
    pub fn into_body(self) -> (r: FormAnswerBody)
        ensures
            self.redacted ==> (r == (FormAnswerBody::Restricted {
                id: self.id,
                form_id: self.form_id,
                answers: self.answers,
            })),
            !self.redacted ==> (r == FormAnswerBody::Full(self)),
    {
        if self.redacted {
            let FormAnswer { id, form_id, answers, .. } = self;
            FormAnswerBody::Restricted { id, form_id, answers }
        } else {
            FormAnswerBody::Full(self)
        }
    }
}

#[derive(Debug, Clone, Copy, PartialEq, Eq, Structural)]
pub enum AnswerCommentSource {
    Portal,
    ImportedFromRedmine,
}

#[derive(Debug, Clone)]
pub struct HistoryUser {
    pub id: String,
    pub name: String,
    pub role: Role,
}

#[derive(Debug, Clone, Copy, PartialEq, Eq, Structural)]
pub enum HistoryAction {
    Create,
    Update,
    Delete,
}

/// The global Discord webhook to set; none disables notifications.
#[derive(Debug, Clone)]
pub struct GlobalDiscordWebhookUpdateSchema {
    pub url: Option<String>,
}

/// Whether a global Discord webhook is set; never the webhook itself.
#[derive(Debug, Clone, Copy)]
pub struct GlobalDiscordWebhookStatusSchema {
    pub enabled: bool,
}

#[derive(Debug, Clone)]
pub struct NotificationListQuery {
    pub limit: Option<u32>,
    pub cursor: Option<String>,
}

#[derive(Debug, Clone, Copy)]
pub struct NotificationSettingsUpdateSchema {
    pub is_send_message_notification: Option<bool>,
}

#[derive(Debug, Clone, Copy)]
pub struct NotificationSettingsResponse {
    pub is_send_message_notification: bool,
}

#[derive(Debug, Clone)]
pub struct SearchQuery {
    pub query: Option<NonEmptyString>,
}

#[derive(Debug, Clone)]
pub struct UserGroupSchema {
    pub id: String,
    pub name: String,
}

#[derive(Debug, Clone)]
pub struct UserSchema {
    pub id: String,
    pub name: String,
    pub role: String,
    pub groups: Vec<UserGroupSchema>,
}

#[derive(Debug, Clone)]
pub struct UserInfoResponse {
    pub id: String,
    pub name: String,
    pub role: String,
    pub groups: Vec<UserGroupSchema>,
    pub discord_user_id: Option<String>,
    pub discord_username: Option<String>,
}

#[derive(Debug, Clone)]
pub struct UserListQuery {
    pub limit: Option<u32>,
    pub cursor: Option<String>,
}

#[derive(Debug, Clone)]
pub struct UserListPageResponse {
    pub items: Vec<UserSchema>,
    pub next_cursor: Option<String>,
}

#[derive(Debug, Clone)]
pub struct UserSearchResult {
    pub users: Vec<UserSchema>,
}

#[derive(Debug, Clone)]
pub struct DiscordOAuthToken {
    pub token: String,
}

/// The text to search for: a search needs one.
pub fn required_query(query: SearchQuery) -> (r: Result<String, PresentationError>)
    ensures
        match query.query {
            Some(q) => r matches Ok(s) && s@ == q@,
            None => r matches Err(PresentationError::QueryRejection { cause }) && cause@
                == "query is required"@,
        },
{
    match query.query {
        Some(q) => Ok(q.into_inner()),
        None => Err(
            PresentationError::QueryRejection {
                cause: string_of(&chars_of("query is required")),
            },
        ),
    }
}

} // verus!
