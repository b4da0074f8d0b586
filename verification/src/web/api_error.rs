//! How the API answers a failed request: the status, title, detail and
//! error code of each kind of error. Causes that come from the
//! infrastructure are never shown to the client.

use vstd::prelude::*;

use crate::text::{chars_of, string_of};
use crate::validation::ValidationError;

verus! {

/// A point in time in UTC: seconds since the Unix epoch and the nanoseconds
/// within that second.
#[derive(Debug, Clone, Copy, PartialEq, Eq, Structural)]
pub struct Timestamp {
    pub seconds: i64,
    pub nanos: u32,
}

/// Errors of the domain rules.
#[derive(Debug)]
pub enum DomainError {
    Forbidden,
    SubmissionRestricted { reason: String, expires_at: Option<Timestamp> },
    NotFound,
    EmptyMessageBody,
    MessagePostingNotSupportedForTemporaryAnswer,
    MessagePostingNotSupportedForImportedAnswer,
    /// A value that could not be converted; the text describes the cause.
    Conversion { source: String },
    InvalidAnswerAcceptancePeriod,
    InvalidDiscordWebhookUrl,
    InvalidEntity { message: String },
}

/// Errors of the use cases.
#[derive(Debug, Clone, Copy, PartialEq, Eq, Structural)]
pub enum UseCaseError {
    AnswerNotFound,
    OutOfPeriod,
    MessageNotFound,
    FormNotFound,
    NotificationNotFound,
    LabelNotFound,
    CommentNotFound,
    DiscordLinkFailed,
    UserNotFound,
    UserGroupNotFound,
    DiscordNotLinked,
}

/// Errors of the infrastructure; each carries a description of its cause,
/// for the log only.
#[derive(Debug, Clone, PartialEq, Eq)]
pub enum InfraError {
    Database { source: String },
    DatabaseTransaction { cause: String },
    UuidParse { source: String },
    FormNotFound { id: String },
    AnswerNotFount { id: String },
    Outgoing { cause: String },
    Unexpected { cause: String },
    EnumParse { source: String },
    Redis { source: String },
    Reqwest { cause: String },
    MeiliSearch { cause: String },
    SerdeJson { cause: String },
    SerenityError { cause: String },
    AMQP { source: String },
    Send { cause: String },
}

/// Requests that the HTTP layer could not read.
#[derive(Debug, Clone, PartialEq, Eq)]
pub enum PresentationError {
    JsonRejection { cause: String },
    PathRejection { cause: String },
    QueryRejection { cause: String },
    TypedHeaderRejection { cause: String },
}

/// Any error that a handler can fail with.
#[derive(Debug)]
pub enum Error {
    Domain { source: DomainError },
    UseCase { source: UseCaseError },
    Infra { source: InfraError },
    Validation { source: ValidationError },
    Presentation { source: PresentationError },
}

/// Why a submission is refused, and until when.
#[derive(Debug)]
pub struct ErrorRestriction {
    pub reason: String,
    pub expires_at: Option<Timestamp>,
}

/// A failed request's answer.
#[derive(Debug)]
pub struct ApiError {
    pub status: u16,
    pub title: &'static str,
    pub detail: String,
    pub error_code: &'static str,
    pub restriction: Option<ErrorRestriction>,
}

impl ApiError {
    /// Status, title, detail and error code.
    pub open spec fn problem(&self) -> (u16, Seq<char>, Seq<char>, Seq<char>) {
        (self.status, self.title@, self.detail@, self.error_code@)
    }

    pub fn unauthorized(detail: &str) -> (e: Self)
        ensures
            e.problem() == (401u16, "Unauthorized"@, detail@, "UNAUTHORIZED"@),
            e.restriction is None,
    {
        problem_response(401, "Unauthorized", string_of(&chars_of(detail)), "UNAUTHORIZED")
    }
}

fn problem_response(status: u16, title: &'static str, detail: String, error_code: &'static str) -> (e:
    ApiError)
    ensures
        e.problem() == (status, title@, detail@, error_code@),
        e.restriction is None,
{
    ApiError { status, title, detail, error_code, restriction: None }
}

fn fixed_problem(status: u16, title: &'static str, detail: &str, error_code: &'static str) -> (e:
    ApiError)
    ensures
        e.problem() == (status, title@, detail@, error_code@),
        e.restriction is None,
{
    problem_response(status, title, string_of(&chars_of(detail)), error_code)
}

/// The answer to a domain error.
pub open spec fn domain_problem(err: DomainError) -> (u16, Seq<char>, Seq<char>, Seq<char>) {
    match err {
        DomainError::Forbidden => (403u16, "Forbidden"@, "You do not have permission to access this resource."@, "FORBIDDEN"@),
        DomainError::NotFound => (404u16, "Not Found"@, "Resource not found."@, "NOT_FOUND"@),
        DomainError::EmptyMessageBody => (400u16, "Bad Request"@, "Message body is empty."@, "EMPTY_MESSAGE_BODY"@),
        DomainError::MessagePostingNotSupportedForTemporaryAnswer => (422u16, "Unprocessable Entity"@, "Messages cannot be posted to temporary answers."@, "MESSAGE_POSTING_NOT_SUPPORTED_FOR_TEMPORARY_ANSWER"@),
        DomainError::MessagePostingNotSupportedForImportedAnswer => (422u16, "Unprocessable Entity"@, "Messages cannot be posted to answers imported from Redmine."@, "MESSAGE_POSTING_NOT_SUPPORTED_FOR_IMPORTED_ANSWER"@),
        DomainError::Conversion { .. } => (500u16, "Internal Server Error"@, "Conversion Error"@, "INTERNAL_SERVER_ERROR"@),
        DomainError::InvalidAnswerAcceptancePeriod => (400u16, "Bad Request"@, "Invalid answer acceptance period."@, "INVALID_ANSWER_ACCEPTANCE_PERIOD"@),
        DomainError::InvalidDiscordWebhookUrl => (400u16, "Bad Request"@, "Invalid Discord webhook url. (Seichi-Portal only supports Discord webhook)"@, "INVALID_DISCORD_WEBHOOK_URL"@),
        DomainError::SubmissionRestricted { .. } => (403u16, "Forbidden"@, "Form submission is restricted."@, "SUBMISSION_RESTRICTED"@),
        DomainError::InvalidEntity { message } => (422u16, "Unprocessable Entity"@, message@, "INVALID_ENTITY"@),
    }
}

pub fn handle_domain_error(err: DomainError) -> (e: ApiError)
    ensures
        e.problem() == domain_problem(err),
        match err {
            DomainError::SubmissionRestricted { reason, expires_at } => e.restriction matches Some(r)
                && r.reason == reason && r.expires_at == expires_at,
            _ => e.restriction is None,
        },
{
    match err {
        DomainError::Forbidden => fixed_problem(403, "Forbidden", "You do not have permission to access this resource.", "FORBIDDEN"),
        DomainError::NotFound => fixed_problem(404, "Not Found", "Resource not found.", "NOT_FOUND"),
        DomainError::EmptyMessageBody => fixed_problem(400, "Bad Request", "Message body is empty.", "EMPTY_MESSAGE_BODY"),
        DomainError::MessagePostingNotSupportedForTemporaryAnswer => fixed_problem(422, "Unprocessable Entity", "Messages cannot be posted to temporary answers.", "MESSAGE_POSTING_NOT_SUPPORTED_FOR_TEMPORARY_ANSWER"),
        DomainError::MessagePostingNotSupportedForImportedAnswer => fixed_problem(422, "Unprocessable Entity", "Messages cannot be posted to answers imported from Redmine.", "MESSAGE_POSTING_NOT_SUPPORTED_FOR_IMPORTED_ANSWER"),
        DomainError::Conversion { .. } => fixed_problem(500, "Internal Server Error", "Conversion Error", "INTERNAL_SERVER_ERROR"),
        DomainError::InvalidAnswerAcceptancePeriod => fixed_problem(400, "Bad Request", "Invalid answer acceptance period.", "INVALID_ANSWER_ACCEPTANCE_PERIOD"),
        DomainError::InvalidDiscordWebhookUrl => fixed_problem(400, "Bad Request", "Invalid Discord webhook url. (Seichi-Portal only supports Discord webhook)", "INVALID_DISCORD_WEBHOOK_URL"),
        DomainError::SubmissionRestricted { reason, expires_at } => ApiError {
            status: 403,
            title: "Forbidden",
            detail: string_of(&chars_of("Form submission is restricted.")),
            error_code: "SUBMISSION_RESTRICTED",
            restriction: Some(ErrorRestriction { reason, expires_at }),
        },
        DomainError::InvalidEntity { message } => problem_response(
            422,
            "Unprocessable Entity",
            message,
            "INVALID_ENTITY",
        ),
    }
}

/// The answer to a use-case error.
pub open spec fn usecase_problem(err: UseCaseError) -> (u16, Seq<char>, Seq<char>, Seq<char>) {
    match err {
        UseCaseError::AnswerNotFound => (404u16, "Not Found"@, "Answer not found."@, "ANSWER_NOT_FOUND"@),
        UseCaseError::OutOfPeriod => (403u16, "Forbidden"@, "Posted forms is out of period."@, "OUT_OF_PERIOD"@),
        UseCaseError::MessageNotFound => (404u16, "Not Found"@, "Message not found."@, "MESSAGE_NOT_FOUND"@),
        UseCaseError::FormNotFound => (404u16, "Not Found"@, "Form not found."@, "FORM_NOT_FOUND"@),
        UseCaseError::NotificationNotFound => (404u16, "Not Found"@, "Notification not found."@, "NOTIFICATION_NOT_FOUND"@),
        UseCaseError::LabelNotFound => (404u16, "Not Found"@, "Label not found."@, "LABEL_NOT_FOUND"@),
        UseCaseError::CommentNotFound => (404u16, "Not Found"@, "Comment not found."@, "COMMENT_NOT_FOUND"@),
        UseCaseError::DiscordLinkFailed => (500u16, "Internal Server Error"@, "Failed to link discord."@, "DISCORD_LINK_FAILED"@),
        UseCaseError::UserNotFound => (404u16, "Not Found"@, "User not found."@, "USER_NOT_FOUND"@),
        UseCaseError::UserGroupNotFound => (404u16, "Not Found"@, "User group not found."@, "USER_GROUP_NOT_FOUND"@),
        UseCaseError::DiscordNotLinked => (403u16, "Forbidden"@, "Discord is not linked."@, "DISCORD_NOT_LINKED"@),
    }
}

pub fn handle_usecase_error(err: UseCaseError) -> (e: ApiError)
    ensures
        e.problem() == usecase_problem(err),
        e.restriction is None,
{
    match err {
        UseCaseError::AnswerNotFound => fixed_problem(404, "Not Found", "Answer not found.", "ANSWER_NOT_FOUND"),
        UseCaseError::OutOfPeriod => fixed_problem(403, "Forbidden", "Posted forms is out of period.", "OUT_OF_PERIOD"),
        UseCaseError::MessageNotFound => fixed_problem(404, "Not Found", "Message not found.", "MESSAGE_NOT_FOUND"),
        UseCaseError::FormNotFound => fixed_problem(404, "Not Found", "Form not found.", "FORM_NOT_FOUND"),
        UseCaseError::NotificationNotFound => fixed_problem(404, "Not Found", "Notification not found.", "NOTIFICATION_NOT_FOUND"),
        UseCaseError::LabelNotFound => fixed_problem(404, "Not Found", "Label not found.", "LABEL_NOT_FOUND"),
        UseCaseError::CommentNotFound => fixed_problem(404, "Not Found", "Comment not found.", "COMMENT_NOT_FOUND"),
        UseCaseError::DiscordLinkFailed => fixed_problem(500, "Internal Server Error", "Failed to link discord.", "DISCORD_LINK_FAILED"),
        UseCaseError::UserNotFound => fixed_problem(404, "Not Found", "User not found.", "USER_NOT_FOUND"),
        UseCaseError::UserGroupNotFound => fixed_problem(404, "Not Found", "User group not found.", "USER_GROUP_NOT_FOUND"),
        UseCaseError::DiscordNotLinked => fixed_problem(403, "Forbidden", "Discord is not linked.", "DISCORD_NOT_LINKED"),
    }
}

/// The answer to an infrastructure error; it depends on the kind of error
/// only, never on its cause.
pub open spec fn infra_problem(err: InfraError) -> (u16, Seq<char>, Seq<char>, Seq<char>) {
    match err {
        InfraError::Database { .. } => (500u16, "Internal Server Error"@, "Database Error"@, "INTERNAL_SERVER_ERROR"@),
        InfraError::DatabaseTransaction { .. } => (500u16, "Internal Server Error"@, "Transaction Error"@, "INTERNAL_SERVER_ERROR"@),
        InfraError::UuidParse { .. } => (500u16, "Internal Server Error"@, "Uuid Parse Error"@, "INTERNAL_SERVER_ERROR"@),
        InfraError::FormNotFound { .. } => (404u16, "Not Found"@, "Form not found."@, "FORM_NOT_FOUND"@),
        InfraError::AnswerNotFount { .. } => (404u16, "Not Found"@, "Answer not found."@, "ANSWER_NOT_FOUND"@),
        InfraError::Outgoing { .. } => (500u16, "Internal Server Error"@, "Outgoing Error"@, "INTERNAL_SERVER_ERROR"@),
        InfraError::Unexpected { .. } => (500u16, "Internal Server Error"@, "Unexpected Error"@, "INTERNAL_SERVER_ERROR"@),
        InfraError::EnumParse { .. } => (500u16, "Internal Server Error"@, "Enum Parse Error"@, "INTERNAL_SERVER_ERROR"@),
        InfraError::Redis { .. } => (500u16, "Internal Server Error"@, "Database Error"@, "INTERNAL_SERVER_ERROR"@),
        InfraError::Reqwest { .. } => (500u16, "Internal Server Error"@, "HTTP request Error"@, "INTERNAL_SERVER_ERROR"@),
        InfraError::MeiliSearch { .. } => (503u16, "Service Unavailable"@, "Search service is temporarily unavailable."@, "SEARCH_SERVICE_UNAVAILABLE"@),
        InfraError::SerdeJson { .. } => (500u16, "Internal Server Error"@, "JSON parse Error"@, "INTERNAL_SERVER_ERROR"@),
        InfraError::SerenityError { .. } => (500u16, "Internal Server Error"@, "Discord API Error"@, "INTERNAL_SERVER_ERROR"@),
        InfraError::AMQP { .. } => (500u16, "Internal Server Error"@, "AMQP Error"@, "INTERNAL_SERVER_ERROR"@),
        InfraError::Send { .. } => (500u16, "Internal Server Error"@, "Send Error"@, "INTERNAL_SERVER_ERROR"@),
    }
}

/// Which kind of infrastructure error `err` is.
pub open spec fn infra_kind(err: InfraError) -> int {
    match err {
        InfraError::Database { .. } => 0,
        InfraError::DatabaseTransaction { .. } => 1,
        InfraError::UuidParse { .. } => 2,
        InfraError::FormNotFound { .. } => 3,
        InfraError::AnswerNotFount { .. } => 4,
        InfraError::Outgoing { .. } => 5,
        InfraError::Unexpected { .. } => 6,
        InfraError::EnumParse { .. } => 7,
        InfraError::Redis { .. } => 8,
        InfraError::Reqwest { .. } => 9,
        InfraError::MeiliSearch { .. } => 10,
        InfraError::SerdeJson { .. } => 11,
        InfraError::SerenityError { .. } => 12,
        InfraError::AMQP { .. } => 13,
        InfraError::Send { .. } => 14,
    }
}

/// The answer to an infrastructure error never shows its cause: two errors
/// of the same kind get the same answer, whatever their causes.
pub proof fn lemma_infra_answer_hides_the_cause(a: InfraError, b: InfraError)
    requires
        infra_kind(a) == infra_kind(b),
    ensures
        infra_problem(a) == infra_problem(b),
{
}

pub fn handle_infra_error(err: InfraError) -> (e: ApiError)
    ensures
        e.problem() == infra_problem(err),
        e.restriction is None,
{
    match err {
        InfraError::Database { .. } => fixed_problem(500, "Internal Server Error", "Database Error", "INTERNAL_SERVER_ERROR"),
        InfraError::DatabaseTransaction { .. } => fixed_problem(500, "Internal Server Error", "Transaction Error", "INTERNAL_SERVER_ERROR"),
        InfraError::UuidParse { .. } => fixed_problem(500, "Internal Server Error", "Uuid Parse Error", "INTERNAL_SERVER_ERROR"),
        InfraError::FormNotFound { .. } => fixed_problem(404, "Not Found", "Form not found.", "FORM_NOT_FOUND"),
        InfraError::AnswerNotFount { .. } => fixed_problem(404, "Not Found", "Answer not found.", "ANSWER_NOT_FOUND"),
        InfraError::Outgoing { .. } => fixed_problem(500, "Internal Server Error", "Outgoing Error", "INTERNAL_SERVER_ERROR"),
        InfraError::Unexpected { .. } => fixed_problem(500, "Internal Server Error", "Unexpected Error", "INTERNAL_SERVER_ERROR"),
        InfraError::EnumParse { .. } => fixed_problem(500, "Internal Server Error", "Enum Parse Error", "INTERNAL_SERVER_ERROR"),
        InfraError::Redis { .. } => fixed_problem(500, "Internal Server Error", "Database Error", "INTERNAL_SERVER_ERROR"),
        InfraError::Reqwest { .. } => fixed_problem(500, "Internal Server Error", "HTTP request Error", "INTERNAL_SERVER_ERROR"),
        InfraError::MeiliSearch { .. } => fixed_problem(503, "Service Unavailable", "Search service is temporarily unavailable.", "SEARCH_SERVICE_UNAVAILABLE"),
        InfraError::SerdeJson { .. } => fixed_problem(500, "Internal Server Error", "JSON parse Error", "INTERNAL_SERVER_ERROR"),
        InfraError::SerenityError { .. } => fixed_problem(500, "Internal Server Error", "Discord API Error", "INTERNAL_SERVER_ERROR"),
        InfraError::AMQP { .. } => fixed_problem(500, "Internal Server Error", "AMQP Error", "INTERNAL_SERVER_ERROR"),
        InfraError::Send { .. } => fixed_problem(500, "Internal Server Error", "Send Error", "INTERNAL_SERVER_ERROR"),
    }
}

/// The answer to a rejected value.
pub open spec fn validation_problem(err: ValidationError) -> (u16, Seq<char>, Seq<char>, Seq<char>) {
    match err {
        ValidationError::EmptyValue => (400u16, "Bad Request"@, "Empty value error."@, "EMPTY_VALUE"@),
        ValidationError::NegativeValue => (400u16, "Bad Request"@, "Negative value error."@, "NEGATIVE_VALUE"@),
        ValidationError::DuplicateElement => (400u16, "Bad Request"@, "Duplicate element error."@, "DUPLICATE_ELEMENT"@),
    }
}

pub fn handle_validation_error(err: ValidationError) -> (e: ApiError)
    ensures
        e.problem() == validation_problem(err),
        e.restriction is None,
{
    match err {
        ValidationError::EmptyValue => fixed_problem(400, "Bad Request", "Empty value error.", "EMPTY_VALUE"),
        ValidationError::NegativeValue => fixed_problem(400, "Bad Request", "Negative value error.", "NEGATIVE_VALUE"),
        ValidationError::DuplicateElement => fixed_problem(400, "Bad Request", "Duplicate element error.", "DUPLICATE_ELEMENT"),
    }
}

/// The answer to a request that could not be read: the reason is shown.
pub open spec fn presentation_problem(err: PresentationError) -> (u16, Seq<char>, Seq<char>, Seq<char>) {
    match err {
        PresentationError::JsonRejection { cause } => (422u16, "Unprocessable Content"@, cause@, "UNPROCESSABLE_CONTENT"@),
        PresentationError::PathRejection { cause } => (400u16, "Bad Request"@, cause@, "BAD_REQUEST"@),
        PresentationError::QueryRejection { cause } => (400u16, "Bad Request"@, cause@, "BAD_REQUEST"@),
        PresentationError::TypedHeaderRejection { cause } => (401u16, "Unauthorized"@, cause@, "UNAUTHORIZED"@),
    }
}

pub fn handle_presentation_error(err: PresentationError) -> (e: ApiError)
    ensures
        e.problem() == presentation_problem(err),
        e.restriction is None,
{
    match err {
        PresentationError::JsonRejection { cause } => problem_response(422, "Unprocessable Content", cause, "UNPROCESSABLE_CONTENT"),
        PresentationError::PathRejection { cause } => problem_response(400, "Bad Request", cause, "BAD_REQUEST"),
        PresentationError::QueryRejection { cause } => problem_response(400, "Bad Request", cause, "BAD_REQUEST"),
        PresentationError::TypedHeaderRejection { cause } => problem_response(401, "Unauthorized", cause, "UNAUTHORIZED"),
    }
}

/// The answer to any error of a handler.
pub open spec fn error_problem(err: Error) -> (u16, Seq<char>, Seq<char>, Seq<char>) {
    match err {
        Error::Domain { source } => domain_problem(source),
        Error::UseCase { source } => usecase_problem(source),
        Error::Infra { source } => infra_problem(source),
        Error::Validation { source } => validation_problem(source),
        Error::Presentation { source } => presentation_problem(source),
    }
}

/// Whether an error is a refused submission, the only answer that carries a
/// restriction.
pub open spec fn is_restriction(err: Error) -> bool {
    err matches Error::Domain { source: DomainError::SubmissionRestricted { .. } }
}

pub fn handle_error(err: Error) -> (e: ApiError)
    ensures
        e.problem() == error_problem(err),
        e.restriction is Some <==> is_restriction(err),
{
    match err {
        Error::Domain { source } => handle_domain_error(source),
        Error::UseCase { source } => handle_usecase_error(source),
        Error::Infra { source } => handle_infra_error(source),
        Error::Validation { source } => handle_validation_error(source),
        Error::Presentation { source } => handle_presentation_error(source),
    }
}

} // verus!
