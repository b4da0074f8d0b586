//! An issue read for import: its author, its date, and the journals that
//! become comments, with the journals without notes set aside.

use vstd::prelude::*;

use crate::redmine::config::{is_blank, is_blank_text};
use crate::redmine::model::{ImportError, RedmineIssue, RedmineJournal, TimestampField};
use crate::redmine::questions::{author_display_name, redmine_author_display_name};
use crate::schemas::AnswerStatus;
use crate::text::{chars_of, string_of};
use crate::web::api_error::Timestamp;

verus! {

/// The whole seconds since the Unix epoch of the instant that
/// `chrono::DateTime::parse_from_rfc3339` reads from `text`, if it reads one.
pub uninterp spec fn rfc3339_seconds(text: Seq<char>) -> Option<i64>;

/// `chrono::DateTime::parse_from_rfc3339`, read by its `timestamp`: the
/// instant in whole seconds, whatever offset the text gives.
#[verifier::external_body]
fn parse_rfc3339_seconds(text: &str) -> (r: Option<i64>)
    ensures
        r == rfc3339_seconds(text@),
{
    match chrono::DateTime::parse_from_rfc3339(text) {
        Ok(instant) => Some(instant.timestamp()),
        Err(_) => None,
    }
}

/// The date of a Redmine record, at the precision that the portal keeps:
/// whole seconds.
pub open spec fn whole_second(seconds: i64) -> Timestamp {
    Timestamp { seconds, nanos: 0 }
}

/// A Redmine date as the portal stores it: the instant, with its fraction of
/// a second dropped.
pub fn parse_timestamp(value: &str, field: TimestampField) -> (r: Result<Timestamp, ImportError>)
    ensures
        match rfc3339_seconds(value@) {
            Some(s) => r == Ok::<Timestamp, ImportError>(whole_second(s)),
            None => r matches Err(ImportError::InvalidTimestamp { field: f, value: v }) && f == field
                && v@ == value@,
        },
{
    match parse_rfc3339_seconds(value) {
        Some(seconds) => Ok(Timestamp { seconds, nanos: 0 }),
        None => Err(ImportError::InvalidTimestamp { field, value: string_of(&chars_of(value)) }),
    }
}

/// Who wrote an issue or a journal, as the portal records it.
#[derive(Debug, PartialEq, Eq)]
pub struct UserSnapshot {
    pub id: Option<i64>,
    pub display_name: String,
}

/// A journal with notes, to become a portal comment.
#[derive(Debug)]
pub struct JournalInput {
    pub id: i64,
    pub author: UserSnapshot,
    pub notes: String,
    pub created_at: Timestamp,
}

/// An issue, to become a portal answer.
#[derive(Debug)]
pub struct IssueInput {
    pub issue_id: i64,
    pub subject: String,
    pub question_values: Vec<(String, String)>,
    pub author: UserSnapshot,
    pub created_at: Timestamp,
    pub status: AnswerStatus,
    pub journals: Vec<JournalInput>,
}

/// An issue read for import, with the journals that were set aside because
/// they have no notes.
#[derive(Debug)]
pub struct BuiltIssueInput {
    pub input: IssueInput,
    pub skipped_empty_journal_ids: Vec<i64>,
}

/// A journal comment by its parts: journal ID, author ID, author name,
/// notes, date.
pub type JournalView = (i64, Option<i64>, Seq<char>, Seq<char>, Timestamp);

pub open spec fn journal_view(j: JournalInput) -> JournalView {
    (j.id, j.author.id, j.author.display_name@, j.notes@, j.created_at)
}

/// A journal's notes; none are empty notes.
pub open spec fn notes_of(j: RedmineJournal) -> Seq<char> {
    match j.notes {
        Some(n) => n@,
        None => Seq::empty(),
    }
}

/// A journal with notes, read: it needs an author with a positive ID and an
/// RFC 3339 date.
pub open spec fn journal_entry(j: RedmineJournal) -> Result<JournalView, ImportError> {
    match j.user {
        None => Err(ImportError::JournalWithoutAuthor { journal_id: j.id }),
        Some(u) => if u.id <= 0 {
            Err(ImportError::InvalidUserId { user_id: u.id })
        } else {
            match rfc3339_seconds(j.created_on@) {
                None => Err(
                    ImportError::InvalidTimestamp {
                        field: TimestampField::JournalCreatedOn,
                        value: j.created_on,
                    },
                ),
                Some(s) => Ok((j.id, Some(u.id), u.name@, notes_of(j), whole_second(s))),
            }
        },
    }
}

/// The journals read in order: those with blank notes are set aside by ID,
/// the others become comments; the first journal that cannot be read fails
/// the whole issue.
pub open spec fn journal_entries(journals: Seq<RedmineJournal>) -> Result<
    (Seq<JournalView>, Seq<i64>),
    ImportError,
>
    decreases journals.len(),
{
    if journals.len() == 0 {
        Ok((Seq::empty(), Seq::empty()))
    } else {
        let j = journals[0];
        let rest = journal_entries(journals.drop_first());
        if is_blank(notes_of(j)) {
            match rest {
                Ok((entries, skipped)) => Ok((entries, seq![j.id] + skipped)),
                Err(e) => Err(e),
            }
        } else {
            match journal_entry(j) {
                Err(e) => Err(e),
                Ok(v) => match rest {
                    Ok((entries, skipped)) => Ok((seq![v] + entries, skipped)),
                    Err(e) => Err(e),
                },
            }
        }
    }
}

/// An issue read for import: a positive issue ID, an author with a positive
/// ID, an RFC 3339 date, and its journals read in order; on success, the
/// issue's date in seconds, the journal comments, and the journals set aside.
pub open spec fn issue_reading(issue: RedmineIssue) -> Result<
    (i64, Seq<JournalView>, Seq<i64>),
    ImportError,
> {
    if issue.id <= 0 {
        Err(ImportError::InvalidIssueId { issue_id: issue.id })
    } else if issue.author.id <= 0 {
        Err(ImportError::InvalidUserId { user_id: issue.author.id })
    } else {
        match rfc3339_seconds(issue.created_on@) {
            None => Err(
                ImportError::InvalidTimestamp {
                    field: TimestampField::IssueCreatedOn,
                    value: issue.created_on,
                },
            ),
            Some(s) => match journal_entries(issue.journals@) {
                Err(e) => Err(e),
                Ok((entries, skipped)) => Ok((s, entries, skipped)),
            },
        }
    }
}

/// What the journals from `i` on add to what was read before them.
pub open spec fn entries_after(
    journals: Seq<RedmineJournal>,
    i: int,
    read: Seq<JournalView>,
    skipped: Seq<i64>,
) -> Result<(Seq<JournalView>, Seq<i64>), ImportError> {
    match journal_entries(journals.subrange(i, journals.len() as int)) {
        Ok((es, sk)) => Ok((read + es, skipped + sk)),
        Err(e) => Err(e),
    }
}

fn read_journal(j: &RedmineJournal) -> (r: Result<JournalInput, ImportError>)
    ensures
        match journal_entry(*j) {
            Ok(v) => r matches Ok(x) && journal_view(x) == v,
            Err(e) => r == Err::<JournalInput, ImportError>(e),
        },
{
    let user = match &j.user {
        None => {
            return Err(ImportError::JournalWithoutAuthor { journal_id: j.id });
        },
        Some(u) => u,
    };
    if user.id <= 0 {
        return Err(ImportError::InvalidUserId { user_id: user.id });
    }
    let seconds = match parse_rfc3339_seconds(j.created_on.as_str()) {
        None => {
            return Err(
                ImportError::InvalidTimestamp {
                    field: TimestampField::JournalCreatedOn,
                    value: j.created_on.clone(),
                },
            );
        },
        Some(s) => s,
    };
    let notes = match &j.notes {
        Some(n) => n.clone(),
        None => string_of(&Vec::new()),
    };
    Ok(
        JournalInput {
            id: j.id,
            author: UserSnapshot { id: Some(user.id), display_name: user.name.clone() },
            notes,
            created_at: Timestamp { seconds, nanos: 0 },
        },
    )
}

fn notes_are_blank(j: &RedmineJournal) -> (r: bool)
    ensures
        r == is_blank(notes_of(*j)),
{
    match &j.notes {
        Some(n) => is_blank_text(n.as_str()),
        None => is_blank_text(string_of(&Vec::new()).as_str()),
    }
}

proof fn lemma_entries_step(journals: Seq<RedmineJournal>, i: int)
    requires
        0 <= i < journals.len(),
    ensures
        journals.subrange(i, journals.len() as int).len() > 0,
        journals.subrange(i, journals.len() as int)[0] == journals[i],
        journals.subrange(i, journals.len() as int).drop_first() == journals.subrange(
            i + 1,
            journals.len() as int,
        ),
{
    assert(journals.subrange(i, journals.len() as int).drop_first() =~= journals.subrange(
        i + 1,
        journals.len() as int,
    ));
}

/// Reads an issue for import, with the answer status and the question values
/// that the settings give it.
pub fn build_issue_input(
    issue: RedmineIssue,
    status: AnswerStatus,
    question_values: Vec<(String, String)>,
) -> (r: Result<BuiltIssueInput, ImportError>)
    ensures
        match issue_reading(issue) {
            Err(e) => r == Err::<BuiltIssueInput, ImportError>(e),
            Ok((created, entries, skipped)) => r matches Ok(b) && {
                &&& b.input.issue_id == issue.id
                &&& b.input.subject == issue.subject
                &&& b.input.question_values == question_values
                &&& b.input.author.id == Some(issue.author.id)
                &&& b.input.author.display_name@ == author_display_name(
                    issue.author.name@,
                    issue.custom_fields@,
                )
                &&& b.input.created_at == whole_second(created)
                &&& b.input.status == status
                &&& b.input.journals@.map_values(|j: JournalInput| journal_view(j)) == entries
                &&& b.skipped_empty_journal_ids@ == skipped
            },
        },
{
    if issue.id <= 0 {
        return Err(ImportError::InvalidIssueId { issue_id: issue.id });
    }
    let display_name = redmine_author_display_name(
        issue.author.name.as_str(),
        issue.custom_fields.as_slice(),
    );
    if issue.author.id <= 0 {
        return Err(ImportError::InvalidUserId { user_id: issue.author.id });
    }
    let created = match parse_rfc3339_seconds(issue.created_on.as_str()) {
        None => {
            return Err(
                ImportError::InvalidTimestamp {
                    field: TimestampField::IssueCreatedOn,
                    value: issue.created_on.clone(),
                },
            );
        },
        Some(s) => s,
    };
    let ghost all = issue.journals@;
    let mut journals: Vec<JournalInput> = Vec::new();
    let mut skipped: Vec<i64> = Vec::new();
    let mut i: usize = 0;
    assert(all.subrange(0, all.len() as int) =~= all);
    assert(journals@.map_values(|j: JournalInput| journal_view(j)) =~= Seq::<JournalView>::empty());
    while i < issue.journals.len()
        invariant
            i <= all.len(),
            all == issue.journals@,
            issue.id > 0,
            issue.author.id > 0,
            rfc3339_seconds(issue.created_on@) == Some(created),
            journal_entries(all) == entries_after(
                all,
                i as int,
                journals@.map_values(|j: JournalInput| journal_view(j)),
                skipped@,
            ),
        decreases all.len() - i,
    {
        let journal = &issue.journals[i];
        proof {
            lemma_entries_step(all, i as int);
        }
        let ghost read = journals@.map_values(|j: JournalInput| journal_view(j));
        if notes_are_blank(journal) {
            let ghost before = skipped@;
            skipped.push(journal.id);
            proof {
                match journal_entries(all.subrange(i + 1, all.len() as int)) {
                    Ok((es, sk)) => {
                        assert(before + (seq![journal.id] + sk) =~= skipped@ + sk);
                    },
                    Err(e) => {},
                }
            }
        } else {
            let entry = match read_journal(journal) {
                Ok(entry) => entry,
                Err(e) => {
                    proof {
                        let rest = all.subrange(i as int, all.len() as int);
                        assert(journal_entries(rest) == Err::<(Seq<JournalView>, Seq<i64>), ImportError>(e));
                    }
                    return Err(e);
                },
            };
            let ghost v = journal_view(entry);
            journals.push(entry);
            proof {
                assert(journals@.map_values(|j: JournalInput| journal_view(j)) =~= read.push(v));
                match journal_entries(all.subrange(i + 1, all.len() as int)) {
                    Ok((es, sk)) => {
                        assert(read + (seq![v] + es) =~= read.push(v) + es);
                    },
                    Err(e) => {},
                }
            }
        }
        i = i + 1;
    }
    proof {
        assert(all.subrange(i as int, all.len() as int) =~= Seq::<RedmineJournal>::empty());
        let read = journals@.map_values(|j: JournalInput| journal_view(j));
        assert(read + Seq::<JournalView>::empty() =~= read);
        assert(skipped@ + Seq::<i64>::empty() =~= skipped@);
    }
    Ok(
        BuiltIssueInput {
            input: IssueInput {
                issue_id: issue.id,
                subject: issue.subject,
                question_values,
                author: UserSnapshot { id: Some(issue.author.id), display_name },
                created_at: Timestamp { seconds: created, nanos: 0 },
                status,
                journals,
            },
            skipped_empty_journal_ids: skipped,
        },
    )
}

/// How many of the journals have blank notes.
pub open spec fn blank_journal_count(journals: Seq<RedmineJournal>) -> nat
    decreases journals.len(),
{
    if journals.len() == 0 {
        0
    } else {
        (if is_blank(notes_of(journals[0])) {
            1nat
        } else {
            0nat
        }) + blank_journal_count(journals.drop_first())
    }
}

/// When an issue is read, each of its journals is accounted for once: it
/// either becomes a comment or is set aside, and as many are set aside as
/// have blank notes.
pub proof fn lemma_every_journal_is_kept_or_set_aside(journals: Seq<RedmineJournal>)
    requires
        journal_entries(journals) is Ok,
    ensures
        journal_entries(journals)->Ok_0.0.len() + journal_entries(journals)->Ok_0.1.len()
            == journals.len(),
        journal_entries(journals)->Ok_0.1.len() == blank_journal_count(journals),
    decreases journals.len(),
{
    if journals.len() > 0 {
        lemma_every_journal_is_kept_or_set_aside(journals.drop_first());
    }
}

} // verus!
