//! The Redmine and portal records that the importer reads, and the reasons
//! for which it refuses them.

use vstd::prelude::*;

verus! {

#[derive(Debug)]
pub struct NamedId {
    pub id: i64,
    pub name: String,
}

#[derive(Debug, PartialEq, Eq)]
pub struct RedmineUser {
    pub id: i64,
    pub name: String,
}

impl Clone for RedmineUser {
    fn clone(&self) -> (copy: Self)
        ensures
            copy == *self,
    {
        RedmineUser { id: self.id, name: self.name.clone() }
    }
}

pub fn clone_optional_string(s: &Option<String>) -> (copy: Option<String>)
    ensures
        copy == *s,
{
    match s {
        Some(v) => Some(v.clone()),
        None => None,
    }
}

#[derive(Debug)]
pub struct RedmineJournalDetail {
    pub property: String,
    pub name: String,
    pub new_value: Option<String>,
}

#[derive(Debug)]
pub struct RedmineJournal {
    pub id: i64,
    pub user: Option<RedmineUser>,
    pub notes: Option<String>,
    pub created_on: String,
    pub details: Vec<RedmineJournalDetail>,
}

#[derive(Debug, PartialEq, Eq)]
pub struct RedmineAttachment {
    pub id: i64,
    pub filename: String,
    pub filesize: Option<u64>,
    pub content_type: Option<String>,
    pub content_url: Option<String>,
    pub author: Option<RedmineUser>,
    pub created_on: Option<String>,
}

impl Clone for RedmineAttachment {
    fn clone(&self) -> (copy: Self)
        ensures
            copy == *self,
    {
        RedmineAttachment {
            id: self.id,
            filename: self.filename.clone(),
            filesize: self.filesize,
            content_type: clone_optional_string(&self.content_type),
            content_url: clone_optional_string(&self.content_url),
            author: match &self.author {
                Some(user) => Some(user.clone()),
                None => None,
            },
            created_on: clone_optional_string(&self.created_on),
        }
    }
}

/// An attachment together with the journal whose portal comment carries it.
#[derive(Debug, PartialEq, Eq)]
pub struct RedmineAttachmentAssociation {
    pub journal_id: i64,
    pub attachment: RedmineAttachment,
}

/// Something the importer noticed about an issue's attachments that does not
/// stop the import.
#[derive(Debug, PartialEq, Eq)]
pub enum AttachmentWarning {
    /// No journal with notes exists, so the attachment cannot be carried over.
    NoJournalWithNotes { attachment_id: i64 },
    /// The attachment has no journal detail; it goes to the next journal with
    /// notes in turn.
    FallbackWithoutDetail { attachment_id: i64, journal_id: i64 },
    /// The attachment appears in several journals; it goes to the next journal
    /// with notes in turn.
    FallbackFromSeveralJournals { attachment_id: i64, candidate_journal_ids: Vec<i64>, journal_id: i64 },
    /// The attachment belongs to a journal without notes; it goes to the next
    /// journal with notes in turn.
    FallbackFromEmptyJournal { attachment_id: i64, empty_journal_id: i64, journal_id: i64 },
    /// The filename in the journal detail differs from the attachment's.
    FilenameMismatch { attachment_id: i64, detail_filename: String, attachment_filename: String },
    /// A journal refers to an attachment that the issue does not list.
    MissingTopLevelAttachment { journal_id: i64, attachment_id: i64 },
}

impl Clone for AttachmentWarning {
    fn clone(&self) -> (copy: Self)
        ensures
            copy@ == self@,
    {
        match self {
            AttachmentWarning::NoJournalWithNotes { attachment_id } => AttachmentWarning::NoJournalWithNotes {
                attachment_id: *attachment_id,
            },
            AttachmentWarning::FallbackWithoutDetail { attachment_id, journal_id } =>
                AttachmentWarning::FallbackWithoutDetail {
                attachment_id: *attachment_id,
                journal_id: *journal_id,
            },
            AttachmentWarning::FallbackFromSeveralJournals {
                attachment_id,
                candidate_journal_ids,
                journal_id,
            } => {
                let ids = candidate_journal_ids.clone();
                assert(ids@ =~= candidate_journal_ids@);
                AttachmentWarning::FallbackFromSeveralJournals {
                    attachment_id: *attachment_id,
                    candidate_journal_ids: ids,
                    journal_id: *journal_id,
                }
            },
            AttachmentWarning::FallbackFromEmptyJournal {
                attachment_id,
                empty_journal_id,
                journal_id,
            } => AttachmentWarning::FallbackFromEmptyJournal {
                attachment_id: *attachment_id,
                empty_journal_id: *empty_journal_id,
                journal_id: *journal_id,
            },
            AttachmentWarning::FilenameMismatch {
                attachment_id,
                detail_filename,
                attachment_filename,
            } => AttachmentWarning::FilenameMismatch {
                attachment_id: *attachment_id,
                detail_filename: detail_filename.clone(),
                attachment_filename: attachment_filename.clone(),
            },
            AttachmentWarning::MissingTopLevelAttachment { journal_id, attachment_id } =>
                AttachmentWarning::MissingTopLevelAttachment {
                journal_id: *journal_id,
                attachment_id: *attachment_id,
            },
        }
    }
}

#[derive(Debug)]
pub struct AttachmentAssociationResult {
    pub associations: Vec<RedmineAttachmentAssociation>,
    pub warnings: Vec<AttachmentWarning>,
}

#[derive(Debug, PartialEq, Eq)]
pub struct RedmineIssueRelation {
    pub id: i64,
    pub issue_id: i64,
    pub issue_to_id: i64,
    pub relation_type: String,
}

impl Clone for RedmineIssueRelation {
    fn clone(&self) -> (copy: Self)
        ensures
            copy == *self,
    {
        RedmineIssueRelation {
            id: self.id,
            issue_id: self.issue_id,
            issue_to_id: self.issue_to_id,
            relation_type: self.relation_type.clone(),
        }
    }
}

#[derive(Debug, PartialEq, Eq)]
pub struct IssueStub {
    pub project_id: i64,
    pub id: i64,
    pub tracker_id: i64,
    pub tracker_name: String,
    pub relations: Vec<RedmineIssueRelation>,
}

#[derive(Debug)]
pub struct PortalCommentAttachment {
    pub file_name: String,
    pub size: u64,
}

#[derive(Debug)]
pub struct PortalComment {
    pub id: String,
    pub redmine_journal_id: Option<i64>,
    pub attachments: Vec<PortalCommentAttachment>,
}

#[derive(Debug)]
pub struct PortalAttachmentUpload {
    pub file_name: String,
    pub content_type: String,
    pub content: Vec<u8>,
}

#[derive(Debug)]
pub struct DownloadedRedmineAttachment {
    pub content_type: String,
    pub content: Vec<u8>,
}

#[derive(Debug)]
pub struct AttachmentUploadCandidate {
    pub journal_id: i64,
    pub attachment: RedmineAttachment,
    pub content_type: String,
    pub content: Vec<u8>,
}

/// The value of a Redmine custom field, as far as the importer reads it.
#[derive(Debug, Clone, PartialEq, Eq)]
pub enum CustomFieldValue {
    Null,
    Text(String),
    EmptyArray,
    EmptyObject,
    /// Any other JSON value (a number, a boolean, a non-empty array or
    /// object), as its JSON text.
    Other(String),
}

#[derive(Debug, Clone)]
pub struct RedmineCustomField {
    pub id: i64,
    pub name: String,
    pub value: CustomFieldValue,
}

#[derive(Debug)]
pub struct RedmineIssue {
    pub id: i64,
    pub project: NamedId,
    pub tracker: NamedId,
    pub subject: String,
    pub description: Option<String>,
    pub author: RedmineUser,
    pub created_on: String,
    pub status: NamedId,
    pub journals: Vec<RedmineJournal>,
    pub attachments: Vec<RedmineAttachment>,
    pub custom_fields: Vec<RedmineCustomField>,
}

/// Which date of a Redmine record is read.
#[derive(Debug, Clone, Copy, PartialEq, Eq, Structural)]
pub enum TimestampField {
    IssueCreatedOn,
    JournalCreatedOn,
}

/// Why the importer refuses a record.
#[derive(Debug, Clone, PartialEq, Eq)]
pub enum ImportError {
    /// A relation whose ID or endpoint is not positive.
    InvalidRelation { relation_id: i64 },
    /// A relation from an issue to itself.
    SelfReferencingRelation { relation_id: i64 },
    /// One relation ID with two different contents.
    ConflictingRelation { relation_id: i64 },
    /// A journal ID that is not positive.
    InvalidJournalId { journal_id: i64 },
    /// An attachment detail whose name is not an integer.
    AttachmentDetailNotAnId { journal_id: i64, name: String },
    /// An attachment detail that names a non-positive attachment ID.
    InvalidAttachmentIdInJournal { journal_id: i64, attachment_id: i64 },
    /// An attachment that appears in more than one journal.
    AttachmentInSeveralJournals { attachment_id: i64, first_journal_id: i64, second_journal_id: i64 },
    /// An attachment ID that is not positive.
    InvalidAttachmentId { attachment_id: i64 },
    /// An attachment with an empty filename.
    EmptyAttachmentFilename { attachment_id: i64 },
    /// The same attachment ID listed twice.
    DuplicateAttachmentId { attachment_id: i64 },
    /// An attachment that no journal detail names.
    AttachmentWithoutJournal { attachment_id: i64 },
    /// An attachment whose journal has no notes, so no comment can hold it.
    AttachmentOnEmptyJournal { attachment_id: i64, journal_id: i64 },
    /// The filename in the journal detail differs from the attachment's.
    AttachmentFilenameMismatch { attachment_id: i64, detail_filename: String, attachment_filename: String },
    /// A journal refers to an attachment that the issue does not list.
    MissingTopLevelAttachment { journal_id: i64, attachment_id: i64 },
    /// An empty page before `total_count` was reached.
    EmptyPageBeforeEnd { offset: u64, total_count: u64 },
    /// A non-empty page with a `total_count` of zero.
    InvalidTotalCount,
    /// The next offset does not fit in a `u64`.
    OffsetOverflow,
    /// The next offset does not advance.
    OffsetNotAdvancing,
    /// A portal comment whose journal ID is not positive.
    InvalidCommentJournalId { journal_id: i64 },
    /// A portal comment whose ID is not a UUID.
    CommentIdNotUuid { comment_id: String },
    /// Two portal comments for the same journal.
    DuplicateCommentForJournal { journal_id: i64 },
    /// An attachment whose journal has no portal comment.
    NoCommentForJournal { journal_id: i64 },
    /// An attachment larger than a comment attachment may be.
    AttachmentTooLarge { attachment_id: i64 },
    /// The downloaded size differs from the size in the metadata.
    FilesizeMismatch { attachment_id: i64 },
    /// The Redmine base URL is not a URL.
    InvalidBaseUrl,
    /// An attachment's content URL is not a URL.
    InvalidAttachmentUrl { attachment_id: i64 },
    /// An attachment's content URL points away from the Redmine server.
    ForeignAttachmentUrl { attachment_id: i64 },
    /// A journal with notes has no author.
    JournalWithoutAuthor { journal_id: i64 },
    /// A user ID that is not positive.
    InvalidUserId { user_id: i64 },
    /// A page of the issue list that does not start where it was requested.
    PageOffsetMismatch { project_id: i64, requested: u64, received: u64 },
    /// The issue list of a project holds an issue of a project that is not
    /// configured.
    IssueOutsideProjects { project_id: i64, issue_id: i64, issue_project_id: i64 },
    /// Two project lists give different contents for one issue.
    ConflictingIssue { issue_id: i64 },
    /// An issue ID that is not positive.
    InvalidIssueId { issue_id: i64 },
    /// A date that is not an RFC 3339 timestamp.
    InvalidTimestamp { field: TimestampField, value: String },
    /// Two portal answers belong to one Redmine issue.
    SeveralAnswersForIssue { issue_id: i64 },
    /// No portal answer belongs to the Redmine issue.
    NoAnswerForIssue { issue_id: i64 },
    /// An issue's details are those of another issue.
    IssueIdMismatch { requested: i64, received: i64 },
}

} // verus!
