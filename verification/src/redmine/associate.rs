//! Which journal's portal comment carries each attachment of an issue.

use vstd::prelude::*;

use crate::numbers::{decimal_chars, decimal_text};
use crate::redmine::attachment_index::{
    attachment_journal_candidates, candidates_well_formed, first_journals,
    index_attachment_journal_candidates, is_attachment_detail, journal_index_built,
    journal_names, journals_are_valid, lemma_candidates_contents, lemma_journal_index_built_iff, reports_shared_attachment, single_journal_candidates,
    single_journal_index, CandidateIndex,
};
use crate::redmine::model::{
    AttachmentAssociationResult, AttachmentWarning, ImportError, RedmineAttachment,
    RedmineAttachmentAssociation, RedmineJournal, RedmineJournalDetail,
};
use crate::text::{chars_of, seq_equal, trim, trim_exec};

verus! {

/// What a warning reports, with its texts and lists as sequences.
pub enum WarningView {
    NoJournalWithNotes(i64),
    FallbackWithoutDetail(i64, i64),
    FallbackFromSeveralJournals(i64, Seq<i64>, i64),
    FallbackFromEmptyJournal(i64, i64, i64),
    FilenameMismatch(i64, Seq<char>, Seq<char>),
    MissingTopLevelAttachment(i64, i64),
}

impl View for AttachmentWarning {
    type V = WarningView;

    open spec fn view(&self) -> WarningView {
        match self {
            AttachmentWarning::NoJournalWithNotes { attachment_id } => WarningView::NoJournalWithNotes(
                *attachment_id,
            ),
            AttachmentWarning::FallbackWithoutDetail { attachment_id, journal_id } =>
                WarningView::FallbackWithoutDetail(*attachment_id, *journal_id),
            AttachmentWarning::FallbackFromSeveralJournals {
                attachment_id,
                candidate_journal_ids,
                journal_id,
            } => WarningView::FallbackFromSeveralJournals(
                *attachment_id,
                candidate_journal_ids@,
                *journal_id,
            ),
            AttachmentWarning::FallbackFromEmptyJournal {
                attachment_id,
                empty_journal_id,
                journal_id,
            } => WarningView::FallbackFromEmptyJournal(*attachment_id, *empty_journal_id, *journal_id),
            AttachmentWarning::FilenameMismatch {
                attachment_id,
                detail_filename,
                attachment_filename,
            } => WarningView::FilenameMismatch(
                *attachment_id,
                detail_filename@,
                attachment_filename@,
            ),
            AttachmentWarning::MissingTopLevelAttachment { journal_id, attachment_id } =>
                WarningView::MissingTopLevelAttachment(*journal_id, *attachment_id),
        }
    }
}

pub open spec fn warnings_view(ws: Seq<AttachmentWarning>) -> Seq<WarningView> {
    ws.map_values(|w: AttachmentWarning| w@)
}

/// A journal whose notes are missing or only whitespace.
pub open spec fn notes_blank(j: RedmineJournal) -> bool {
    match j.notes {
        None => true,
        Some(n) => trim(n@).len() == 0,
    }
}

/// The first journal with this ID.
pub open spec fn first_journal(journals: Seq<RedmineJournal>, id: i64) -> Option<RedmineJournal>
    decreases journals.len(),
{
    if journals.len() == 0 {
        None
    } else if journals[0].id == id {
        Some(journals[0])
    } else {
        first_journal(journals.drop_first(), id)
    }
}

/// The first attachment detail that names `attachment_id`.
pub open spec fn first_attachment_detail(details: Seq<RedmineJournalDetail>, attachment_id: i64) -> Option<
    RedmineJournalDetail,
>
    decreases details.len(),
{
    if details.len() == 0 {
        None
    } else if is_attachment_detail(details[0]) && details[0].name@ == decimal_text(
        attachment_id as int,
    ) {
        Some(details[0])
    } else {
        first_attachment_detail(details.drop_first(), attachment_id)
    }
}

/// The first detail naming `attachment_id` among all journals with ID
/// `journal_id`, in order.
pub open spec fn detail_in_journals_with_id(
    journals: Seq<RedmineJournal>,
    journal_id: i64,
    attachment_id: i64,
) -> Option<RedmineJournalDetail>
    decreases journals.len(),
{
    if journals.len() == 0 {
        None
    } else {
        let here = if journals[0].id == journal_id {
            first_attachment_detail(journals[0].details@, attachment_id)
        } else {
            None
        };
        match here {
            Some(d) => Some(d),
            None => detail_in_journals_with_id(journals.drop_first(), journal_id, attachment_id),
        }
    }
}

/// The first detail naming `attachment_id` in the first journal of each of
/// `ids`, in the order of `ids`.
pub open spec fn detail_in_candidates(
    journals: Seq<RedmineJournal>,
    ids: Seq<i64>,
    attachment_id: i64,
) -> Option<RedmineJournalDetail>
    decreases ids.len(),
{
    if ids.len() == 0 {
        None
    } else {
        let here = match first_journal(journals, ids[0]) {
            Some(j) => first_attachment_detail(j.details@, attachment_id),
            None => None,
        };
        match here {
            Some(d) => Some(d),
            None => detail_in_candidates(journals, ids.drop_first(), attachment_id),
        }
    }
}

/// The filename a detail records, when it records one that differs from
/// the attachment's.
pub open spec fn mismatched_filename(detail: Option<RedmineJournalDetail>, attachment: RedmineAttachment) -> Option<
    String,
> {
    match detail {
        Some(d) => match d.new_value {
            Some(name) => if name@ != attachment.filename@ {
                Some(name)
            } else {
                None
            },
            None => None,
        },
        None => None,
    }
}

/// The checks that every attachment passes first: a positive ID, a filename,
/// and an ID not seen before.
pub open spec fn attachment_refusal(seen: Set<i64>, a: RedmineAttachment) -> Option<ImportError> {
    if a.id <= 0 {
        Some(ImportError::InvalidAttachmentId { attachment_id: a.id })
    } else if a.filename@.len() == 0 {
        Some(ImportError::EmptyAttachmentFilename { attachment_id: a.id })
    } else if seen.contains(a.id) {
        Some(ImportError::DuplicateAttachmentId { attachment_id: a.id })
    } else {
        None
    }
}

/// One attachment associated with the single journal that names it.
pub open spec fn strict_step(
    journals: Seq<RedmineJournal>,
    index: Map<i64, i64>,
    seen: Set<i64>,
    done: Seq<RedmineAttachmentAssociation>,
    a: RedmineAttachment,
) -> Result<(Set<i64>, Seq<RedmineAttachmentAssociation>), ImportError> {
    match attachment_refusal(seen, a) {
        Some(e) => Err(e),
        None => if !index.contains_key(a.id) {
            Err(ImportError::AttachmentWithoutJournal { attachment_id: a.id })
        } else {
            let journal_id = index[a.id];
            let blank = match first_journal(journals, journal_id) {
                Some(j) => notes_blank(j),
                None => true,
            };
            if blank {
                Err(ImportError::AttachmentOnEmptyJournal { attachment_id: a.id, journal_id })
            } else {
                match mismatched_filename(
                    detail_in_journals_with_id(journals, journal_id, a.id),
                    a,
                ) {
                    Some(name) => Err(
                        ImportError::AttachmentFilenameMismatch {
                            attachment_id: a.id,
                            detail_filename: name,
                            attachment_filename: a.filename,
                        },
                    ),
                    None => Ok(
                        (
                            seen.insert(a.id),
                            done.push(RedmineAttachmentAssociation { journal_id, attachment: a }),
                        ),
                    ),
                }
            }
        },
    }
}

pub open spec fn strict_all(
    journals: Seq<RedmineJournal>,
    index: Map<i64, i64>,
    seen: Set<i64>,
    done: Seq<RedmineAttachmentAssociation>,
    attachments: Seq<RedmineAttachment>,
) -> Result<(Set<i64>, Seq<RedmineAttachmentAssociation>), ImportError>
    decreases attachments.len(),
{
    if attachments.len() == 0 {
        Ok((seen, done))
    } else {
        match strict_step(journals, index, seen, done, attachments[0]) {
            Err(e) => Err(e),
            Ok((s, d)) => strict_all(journals, index, s, d, attachments.drop_first()),
        }
    }
}

/// `e` reports the attachment with the smallest ID among those that a
/// journal names but the issue does not list.
pub open spec fn reports_missing_attachment(index: Map<i64, i64>, seen: Set<i64>, e: ImportError) -> bool {
    e matches ImportError::MissingTopLevelAttachment { journal_id, attachment_id }
        && index.contains_key(attachment_id) && !seen.contains(attachment_id) && journal_id
        == index[attachment_id] && forall|a: i64|
        #![trigger index[a]]
        index.contains_key(a) && a < attachment_id ==> seen.contains(a)
}

pub open spec fn all_listed(index: Map<i64, i64>, seen: Set<i64>) -> bool {
    forall|a: i64| #[trigger] index.contains_key(a) ==> seen.contains(a)
}

fn notes_blank_exec(j: &RedmineJournal) -> (r: bool)
    ensures
        r == notes_blank(*j),
{
    match &j.notes {
        None => true,
        Some(n) => trim_exec(&chars_of(n.as_str())).len() == 0,
    }
}

fn find_journal(journals: &[RedmineJournal], id: i64) -> (r: Option<usize>)
    ensures
        match first_journal(journals@, id) {
            Some(j) => r matches Some(i) && i < journals@.len() && journals@[i as int] == j,
            None => r is None,
        },
{
    let mut i: usize = 0;
    assert(journals@.subrange(0, journals@.len() as int) =~= journals@);
    while i < journals.len()
        invariant
            i <= journals@.len(),
            first_journal(journals@, id) == first_journal(
                journals@.subrange(i as int, journals@.len() as int),
                id,
            ),
        decreases journals@.len() - i,
    {
        let ghost rest = journals@.subrange(i as int, journals@.len() as int);
        assert(rest[0] == journals@[i as int]);
        assert(rest.drop_first() =~= journals@.subrange(i + 1, journals@.len() as int));
        if journals[i].id == id {
            return Some(i);
        }
        i = i + 1;
    }
    None
}

fn find_attachment_detail(details: &Vec<RedmineJournalDetail>, name: &Vec<char>, attachment_id: Ghost<i64>) -> (r: Option<usize>)
    requires
        name@ == decimal_text(attachment_id@ as int),
    ensures
        match first_attachment_detail(details@, attachment_id@) {
            Some(d) => r matches Some(i) && i < details@.len() && details@[i as int] == d,
            None => r is None,
        },
{
    let mut i: usize = 0;
    assert(details@.subrange(0, details@.len() as int) =~= details@);
    while i < details.len()
        invariant
            i <= details@.len(),
            name@ == decimal_text(attachment_id@ as int),
            first_attachment_detail(details@, attachment_id@) == first_attachment_detail(
                details@.subrange(i as int, details@.len() as int),
                attachment_id@,
            ),
        decreases details@.len() - i,
    {
        let ghost rest = details@.subrange(i as int, details@.len() as int);
        assert(rest[0] == details@[i as int]);
        assert(rest.drop_first() =~= details@.subrange(i + 1, details@.len() as int));
        let d = &details[i];
        if crate::text::seq_equal(&chars_of(d.property.as_str()), &chars_of("attachment"))
            && seq_equal(&chars_of(d.name.as_str()), name) {
            return Some(i);
        }
        i = i + 1;
    }
    None
}

fn mismatched_filename_exec(
    detail: Option<&RedmineJournalDetail>,
    attachment: &RedmineAttachment,
) -> (r: Option<String>)
    ensures
        r == mismatched_filename(
            match detail {
                Some(d) => Some(*d),
                None => None,
            },
            *attachment,
        ),
{
    match detail {
        Some(d) => match &d.new_value {
            Some(name) => {
                if seq_equal(&chars_of(name.as_str()), &chars_of(attachment.filename.as_str())) {
                    None
                } else {
                    Some(name.clone())
                }
            },
            None => None,
        },
        None => None,
    }
}

fn detail_in_journals_with_id_exec<'a>(
    journals: &'a [RedmineJournal],
    journal_id: i64,
    name: &Vec<char>,
    attachment_id: Ghost<i64>,
) -> (r: Option<&'a RedmineJournalDetail>)
    requires
        name@ == decimal_text(attachment_id@ as int),
    ensures
        match detail_in_journals_with_id(journals@, journal_id, attachment_id@) {
            Some(d) => r matches Some(e) && *e == d,
            None => r is None,
        },
{
    let mut i: usize = 0;
    assert(journals@.subrange(0, journals@.len() as int) =~= journals@);
    while i < journals.len()
        invariant
            i <= journals@.len(),
            name@ == decimal_text(attachment_id@ as int),
            detail_in_journals_with_id(journals@, journal_id, attachment_id@)
                == detail_in_journals_with_id(
                journals@.subrange(i as int, journals@.len() as int),
                journal_id,
                attachment_id@,
            ),
        decreases journals@.len() - i,
    {
        let ghost rest = journals@.subrange(i as int, journals@.len() as int);
        assert(rest[0] == journals@[i as int]);
        assert(rest.drop_first() =~= journals@.subrange(i + 1, journals@.len() as int));
        if journals[i].id == journal_id {
            if let Some(k) = find_attachment_detail(&journals[i].details, name, attachment_id) {
                return Some(&journals[i].details[k]);
            }
        }
        i = i + 1;
    }
    None
}

fn seen_contains(seen: &Vec<i64>, id: i64) -> (r: bool)
    ensures
        r == seen@.contains(id),
{
    let mut i: usize = 0;
    while i < seen.len()
        invariant
            i <= seen@.len(),
            forall|k: int| 0 <= k < i ==> seen@[k] != id,
        decreases seen@.len() - i,
    {
        if seen[i] == id {
            return true;
        }
        i = i + 1;
    }
    false
}

/// The position of `attachment_id` in the index.
fn lookup_candidates(ix: &CandidateIndex, index: Ghost<Map<i64, Seq<i64>>>, attachment_id: i64) -> (r:
    Option<usize>)
    requires
        ix.holds(index@),
    ensures
        index@.contains_key(attachment_id) <==> r is Some,
        r matches Some(i) ==> i < ix.attachment_ids@.len() && ix.attachment_ids@[i as int]
            == attachment_id,
{
    let mut i: usize = 0;
    while i < ix.attachment_ids.len()
        invariant
            ix.holds(index@),
            i <= ix.attachment_ids@.len(),
            forall|k: int| 0 <= k < i ==> ix.attachment_ids@[k] != attachment_id,
        decreases ix.attachment_ids@.len() - i,
    {
        if ix.attachment_ids[i] == attachment_id {
            return Some(i);
        }
        i = i + 1;
    }
    proof {
        if index@.contains_key(attachment_id) {
            assert(ix.attachment_ids@.contains(attachment_id));
        }
    }
    None
}

/// Each attachment with the single journal that names it in its details;
/// refused when an attachment is malformed or listed twice, no journal or
/// only a journal without notes names it, the detail records another
/// filename, or a journal names an attachment that the issue does not list.
pub fn associate_attachments(journals: &[RedmineJournal], attachments: &[RedmineAttachment]) -> (r:
    Result<Vec<RedmineAttachmentAssociation>, ImportError>)
    ensures
        match attachment_journal_candidates(journals@) {
            Err(e) => r matches Err(f) && f == e,
            Ok(candidates) => if !single_journal_index(candidates) {
                r matches Err(e) && reports_shared_attachment(candidates, e)
            } else {
                let index = first_journals(candidates);
                match strict_all(journals@, index, Set::empty(), Seq::empty(), attachments@) {
                    Err(e) => r matches Err(f) && f == e,
                    Ok((seen, done)) => {
                        &&& r is Ok <==> all_listed(index, seen)
                        &&& r matches Ok(list) ==> list@ == done
                        &&& r matches Err(e) ==> reports_missing_attachment(index, seen, e)
                    },
                }
            },
        },
{
    let ix = match single_journal_candidates(journals) {
        Err(e) => return Err(e),
        Ok(ix) => ix,
    };
    let ghost candidates = attachment_journal_candidates(journals@)->Ok_0;
    let ghost index = first_journals(candidates);
    let ghost goal = strict_all(journals@, index, Set::empty(), Seq::empty(), attachments@);
    let mut seen: Vec<i64> = Vec::new();
    let ghost mut seen_set: Set<i64> = Set::empty();
    let mut associations: Vec<RedmineAttachmentAssociation> = Vec::new();
    let mut n: usize = 0;
    assert(attachments@.subrange(0, attachments@.len() as int) =~= attachments@);
    assert(associations@ =~= Seq::<RedmineAttachmentAssociation>::empty());
    assert(attachment_journal_candidates(journals@) == Ok::<Map<i64, Seq<i64>>, ImportError>(candidates));
    while n < attachments.len()
        invariant
            attachment_journal_candidates(journals@) == Ok::<Map<i64, Seq<i64>>, ImportError>(candidates),
            goal == strict_all(journals@, index, Set::empty(), Seq::empty(), attachments@),
            ix.holds(candidates),
            single_journal_index(candidates),
            index == first_journals(candidates),
            n <= attachments@.len(),
            forall|a: i64| seen_set.contains(a) <==> seen@.contains(a),
            goal == strict_all(
                journals@,
                index,
                seen_set,
                associations@,
                attachments@.subrange(n as int, attachments@.len() as int),
            ),
        decreases attachments@.len() - n,
    {
        let attachment = &attachments[n];
        let ghost rest = attachments@.subrange(n as int, attachments@.len() as int);
        assert(rest[0] == *attachment);
        assert(rest.drop_first() =~= attachments@.subrange(n + 1, attachments@.len() as int));
        if attachment.id <= 0 {
            return Err(ImportError::InvalidAttachmentId { attachment_id: attachment.id });
        }
        if attachment.filename.as_str().is_empty() {
            return Err(ImportError::EmptyAttachmentFilename { attachment_id: attachment.id });
        }
        if seen_contains(&seen, attachment.id) {
            return Err(ImportError::DuplicateAttachmentId { attachment_id: attachment.id });
        }
        let ghost seen_before = seen@;
        seen.push(attachment.id);
        assert(seen@.subrange(0, seen@.len() - 1) =~= seen_before);
        let position = match lookup_candidates(&ix, Ghost(candidates), attachment.id) {
            None => {
                return Err(ImportError::AttachmentWithoutJournal { attachment_id: attachment.id });
            },
            Some(i) => i,
        };
        assert(candidates[attachment.id] == ix.journal_ids@[position as int]@);
        assert(candidates[attachment.id].len() == 1);
        let journal_id = ix.journal_ids[position][0];
        assert(index[attachment.id] == journal_id);
        let blank = match find_journal(journals, journal_id) {
            Some(i) => notes_blank_exec(&journals[i]),
            None => true,
        };
        if blank {
            return Err(ImportError::AttachmentOnEmptyJournal { attachment_id: attachment.id, journal_id });
        }
        let name = decimal_chars(attachment.id);
        let detail = detail_in_journals_with_id_exec(journals, journal_id, &name, Ghost(attachment.id));
        if let Some(detail_filename) = mismatched_filename_exec(detail, attachment) {
            return Err(
                ImportError::AttachmentFilenameMismatch {
                    attachment_id: attachment.id,
                    detail_filename,
                    attachment_filename: attachment.filename.clone(),
                },
            );
        }
        associations.push(RedmineAttachmentAssociation { journal_id, attachment: attachment.clone() });
        proof {
            let before = seen_set;
            seen_set = seen_set.insert(attachment.id);
            assert forall|a: i64| seen_set.contains(a) <==> seen@.contains(a) by {
                if a == attachment.id {
                    assert(seen@[seen@.len() - 1] == a);
                } else if seen@.contains(a) {
                    let t = choose|t: int| 0 <= t < seen@.len() && seen@[t] == a;
                    assert(t < seen@.len() - 1);
                    assert(seen@.subrange(0, seen@.len() - 1)[t] == a);
                }
            }
        }
        n = n + 1;
    }
    let mut k: usize = 0;
    assert(attachments@.subrange(n as int, attachments@.len() as int) =~= Seq::<RedmineAttachment>::empty());
    assert(goal == Ok::<(Set<i64>, Seq<RedmineAttachmentAssociation>), ImportError>((seen_set, associations@)));
    while k < ix.attachment_ids.len()
        invariant
            attachment_journal_candidates(journals@) == Ok::<Map<i64, Seq<i64>>, ImportError>(candidates),
            goal == strict_all(journals@, index, Set::empty(), Seq::empty(), attachments@),
            goal == Ok::<(Set<i64>, Seq<RedmineAttachmentAssociation>), ImportError>((seen_set, associations@)),
            ix.holds(candidates),
            single_journal_index(candidates),
            index == first_journals(candidates),
            k <= ix.attachment_ids@.len(),
            forall|a: i64| seen_set.contains(a) <==> seen@.contains(a),
            forall|t: int| 0 <= t < k ==> seen_set.contains(#[trigger] ix.attachment_ids@[t]),
        decreases ix.attachment_ids@.len() - k,
    {
        let attachment_id = ix.attachment_ids[k];
        if !seen_contains(&seen, attachment_id) {
            assert(candidates[attachment_id] == ix.journal_ids@[k as int]@);
            assert(candidates[attachment_id].len() == 1);
            let journal_id = ix.journal_ids[k][0];
            proof {
                assert forall|a: i64| #![trigger index[a]] index.contains_key(a) && a
                    < attachment_id implies seen_set.contains(a) by {
                    let t = choose|t: int|
                        0 <= t < ix.attachment_ids@.len() && ix.attachment_ids@[t] == a;
                    if t >= k {
                        assert(ix.attachment_ids@[k as int] <= ix.attachment_ids@[t]);
                    }
                }
                assert(index.contains_key(attachment_id));
                assert(!seen_set.contains(attachment_id));
                assert(index[attachment_id] == journal_id);
                assert(!all_listed(index, seen_set));
            }
            return Err(ImportError::MissingTopLevelAttachment { journal_id, attachment_id });
        }
        k = k + 1;
    }
    proof {
        assert forall|a: i64| #[trigger] index.contains_key(a) implies seen_set.contains(a) by {
            let t = choose|t: int| 0 <= t < ix.attachment_ids@.len() && ix.attachment_ids@[t] == a;
        }
    }
    Ok(associations)
}

/// The IDs of the journals with notes, in order (with repetitions).
pub open spec fn fallback_journal_ids(journals: Seq<RedmineJournal>) -> Seq<i64>
    decreases journals.len(),
{
    if journals.len() == 0 {
        Seq::empty()
    } else {
        let earlier = fallback_journal_ids(journals.drop_last());
        let j = journals.last();
        if !notes_blank(j) {
            earlier.push(j.id)
        } else {
            earlier
        }
    }
}

/// The candidate journals whose first journal with that ID has notes.
pub open spec fn candidates_with_notes(journals: Seq<RedmineJournal>, ids: Seq<i64>) -> Seq<i64>
    decreases ids.len(),
{
    if ids.len() == 0 {
        Seq::empty()
    } else {
        let earlier = candidates_with_notes(journals, ids.drop_last());
        let has_notes = match first_journal(journals, ids.last()) {
            Some(j) => !notes_blank(j),
            None => false,
        };
        if has_notes {
            earlier.push(ids.last())
        } else {
            earlier
        }
    }
}

/// A warning when a candidate's detail records a filename other than the
/// attachment's.
pub open spec fn mismatch_warning(
    journals: Seq<RedmineJournal>,
    candidates: Seq<i64>,
    a: RedmineAttachment,
) -> Seq<WarningView> {
    match mismatched_filename(detail_in_candidates(journals, candidates, a.id), a) {
        Some(name) => seq![WarningView::FilenameMismatch(a.id, name@, a.filename@)],
        None => Seq::empty(),
    }
}

/// Progress through the attachments: the next fallback turn, the attachment
/// IDs seen, the associations made and the warnings raised.
pub type FallbackProgress = (nat, Set<i64>, Seq<RedmineAttachmentAssociation>, Seq<WarningView>);

/// One attachment associated with the first candidate journal that has
/// notes, or else with the journals with notes in turn.
pub open spec fn fallback_step(
    journals: Seq<RedmineJournal>,
    candidates: Map<i64, Seq<i64>>,
    fallback: Seq<i64>,
    progress: FallbackProgress,
    a: RedmineAttachment,
) -> Result<FallbackProgress, ImportError> {
    let (turn, seen, done, warnings) = progress;
    match attachment_refusal(seen, a) {
        Some(e) => Err(e),
        None => {
            let seen_now = seen.insert(a.id);
            let ids = if candidates.contains_key(a.id) {
                candidates[a.id]
            } else {
                Seq::empty()
            };
            let with_notes = candidates_with_notes(journals, ids);
            if with_notes.len() > 0 {
                let journal_id = with_notes[0];
                Ok(
                    (
                        turn,
                        seen_now,
                        done.push(RedmineAttachmentAssociation { journal_id, attachment: a }),
                        warnings + mismatch_warning(journals, ids, a),
                    ),
                )
            } else if fallback.len() > 0 {
                let journal_id = fallback[(turn % fallback.len()) as int];
                let why = if ids.len() == 0 {
                    WarningView::FallbackWithoutDetail(a.id, journal_id)
                } else if ids.len() > 1 {
                    WarningView::FallbackFromSeveralJournals(a.id, ids, journal_id)
                } else {
                    WarningView::FallbackFromEmptyJournal(a.id, ids[0], journal_id)
                };
                Ok(
                    (
                        turn + 1,
                        seen_now,
                        done.push(RedmineAttachmentAssociation { journal_id, attachment: a }),
                        warnings.push(why) + mismatch_warning(journals, ids, a),
                    ),
                )
            } else {
                Ok((turn, seen_now, done, warnings.push(WarningView::NoJournalWithNotes(a.id))))
            }
        },
    }
}

pub open spec fn fallback_all(
    journals: Seq<RedmineJournal>,
    candidates: Map<i64, Seq<i64>>,
    fallback: Seq<i64>,
    progress: FallbackProgress,
    attachments: Seq<RedmineAttachment>,
) -> Result<FallbackProgress, ImportError>
    decreases attachments.len(),
{
    if attachments.len() == 0 {
        Ok(progress)
    } else {
        match fallback_step(journals, candidates, fallback, progress, attachments[0]) {
            Err(e) => Err(e),
            Ok(next) => fallback_all(journals, candidates, fallback, next, attachments.drop_first()),
        }
    }
}

pub open spec fn fallback_associations(
    journals: Seq<RedmineJournal>,
    candidates: Map<i64, Seq<i64>>,
    attachments: Seq<RedmineAttachment>,
) -> Result<FallbackProgress, ImportError> {
    fallback_all(
        journals,
        candidates,
        fallback_journal_ids(journals),
        (0, Set::empty(), Seq::empty(), Seq::empty()),
        attachments,
    )
}

/// One warning per attachment that a journal names but the issue does not
/// list, in increasing attachment ID order, each with its first journal.
pub open spec fn missing_attachment_warnings(
    ws: Seq<WarningView>,
    candidates: Map<i64, Seq<i64>>,
    seen: Set<i64>,
) -> bool {
    &&& forall|i: int|
        0 <= i < ws.len() ==> (#[trigger] ws[i] matches WarningView::MissingTopLevelAttachment(
            journal_id,
            attachment_id,
        ) && candidates.contains_key(attachment_id) && !seen.contains(attachment_id) && journal_id
            == candidates[attachment_id][0])
    &&& forall|i: int, j: int|
        0 <= i < j < ws.len() ==> ws[i]->MissingTopLevelAttachment_1
            < ws[j]->MissingTopLevelAttachment_1
    &&& forall|a: i64|
        candidates.contains_key(a) && !seen.contains(a) ==> exists|i: int|
            0 <= i < ws.len() && #[trigger] ws[i] == WarningView::MissingTopLevelAttachment(
                candidates[a][0],
                a,
            )
}

fn fallback_journal_ids_exec(journals: &[RedmineJournal]) -> (r: Vec<i64>)
    ensures
        r@ == fallback_journal_ids(journals@),
{
    let mut r: Vec<i64> = Vec::new();
    let mut i: usize = 0;
    assert(journals@.subrange(0, 0) =~= Seq::<RedmineJournal>::empty());
    while i < journals.len()
        invariant
            i <= journals@.len(),
            r@ == fallback_journal_ids(journals@.subrange(0, i as int)),
        decreases journals@.len() - i,
    {
        assert(journals@.subrange(0, i + 1).drop_last() =~= journals@.subrange(0, i as int));
        if !notes_blank_exec(&journals[i]) {
            r.push(journals[i].id);
        }
        i = i + 1;
    }
    assert(journals@.subrange(0, journals@.len() as int) =~= journals@);
    r
}

fn candidates_with_notes_exec(journals: &[RedmineJournal], ids: &Vec<i64>) -> (r: Vec<i64>)
    ensures
        r@ == candidates_with_notes(journals@, ids@),
{
    let mut r: Vec<i64> = Vec::new();
    let mut i: usize = 0;
    assert(ids@.subrange(0, 0) =~= Seq::<i64>::empty());
    while i < ids.len()
        invariant
            i <= ids@.len(),
            r@ == candidates_with_notes(journals@, ids@.subrange(0, i as int)),
        decreases ids@.len() - i,
    {
        assert(ids@.subrange(0, i + 1).drop_last() =~= ids@.subrange(0, i as int));
        let has_notes = match find_journal(journals, ids[i]) {
            Some(k) => !notes_blank_exec(&journals[k]),
            None => false,
        };
        if has_notes {
            r.push(ids[i]);
        }
        i = i + 1;
    }
    assert(ids@.subrange(0, ids@.len() as int) =~= ids@);
    r
}

fn detail_in_candidates_exec<'a>(
    journals: &'a [RedmineJournal],
    ids: &Vec<i64>,
    name: &Vec<char>,
    attachment_id: Ghost<i64>,
) -> (r: Option<&'a RedmineJournalDetail>)
    requires
        name@ == decimal_text(attachment_id@ as int),
    ensures
        match detail_in_candidates(journals@, ids@, attachment_id@) {
            Some(d) => r matches Some(e) && *e == d,
            None => r is None,
        },
{
    let mut i: usize = 0;
    assert(ids@.subrange(0, ids@.len() as int) =~= ids@);
    while i < ids.len()
        invariant
            i <= ids@.len(),
            name@ == decimal_text(attachment_id@ as int),
            detail_in_candidates(journals@, ids@, attachment_id@) == detail_in_candidates(
                journals@,
                ids@.subrange(i as int, ids@.len() as int),
                attachment_id@,
            ),
        decreases ids@.len() - i,
    {
        let ghost rest = ids@.subrange(i as int, ids@.len() as int);
        assert(rest[0] == ids@[i as int]);
        assert(rest.drop_first() =~= ids@.subrange(i + 1, ids@.len() as int));
        if let Some(k) = find_journal(journals, ids[i]) {
            if let Some(d) = find_attachment_detail(&journals[k].details, name, attachment_id) {
                return Some(&journals[k].details[d]);
            }
        }
        i = i + 1;
    }
    None
}

#[verifier::rlimit(30)]
fn missing_attachment_warnings_exec(
    ix: &CandidateIndex,
    candidates: Ghost<Map<i64, Seq<i64>>>,
    seen: &Vec<i64>,
    seen_set: Ghost<Set<i64>>,
) -> (missing: Vec<AttachmentWarning>)
    requires
        ix.holds(candidates@),
        candidates_well_formed_lengths(candidates@),
        forall|a: i64| seen_set@.contains(a) <==> seen@.contains(a),
    ensures
        missing_attachment_warnings(warnings_view(missing@), candidates@, seen_set@),
{
    let mut missing: Vec<AttachmentWarning> = Vec::new();
    let mut k: usize = 0;
    while k < ix.attachment_ids.len()
        invariant
            ix.holds(candidates@),
            candidates_well_formed_lengths(candidates@),
            forall|a: i64| seen_set@.contains(a) <==> seen@.contains(a),
            k <= ix.attachment_ids@.len(),
            forall|i: int|
                0 <= i < missing@.len() ==> (#[trigger] warnings_view(missing@)[i] matches WarningView::MissingTopLevelAttachment(
                    journal_id,
                    attachment_id,
                ) && candidates@.contains_key(attachment_id) && !seen_set@.contains(attachment_id)
                    && journal_id == candidates@[attachment_id][0]),
            k < ix.attachment_ids@.len() ==> forall|i: int|
                0 <= i < missing@.len() ==> #[trigger] warnings_view(missing@)[i]->MissingTopLevelAttachment_1
                    < ix.attachment_ids@[k as int],
            forall|i: int, j: int|
                0 <= i < j < missing@.len() ==> warnings_view(missing@)[i]->MissingTopLevelAttachment_1
                    < warnings_view(missing@)[j]->MissingTopLevelAttachment_1,
            forall|t: int|
                0 <= t < k && !seen_set@.contains(#[trigger] ix.attachment_ids@[t]) ==> warnings_view(
                    missing@,
                ).contains(
                    WarningView::MissingTopLevelAttachment(
                        candidates@[ix.attachment_ids@[t]][0],
                        ix.attachment_ids@[t],
                    ),
                ),
        decreases ix.attachment_ids@.len() - k,
    {
        let attachment_id = ix.attachment_ids[k];
        let ghost before = warnings_view(missing@);
        if !seen_contains(seen, attachment_id) {
            assert(candidates@[attachment_id] == ix.journal_ids@[k as int]@);
            let journal_id = ix.journal_ids[k][0];
            let w = AttachmentWarning::MissingTopLevelAttachment { journal_id, attachment_id };
            missing.push(w);
            proof {
                assert(warnings_view(missing@) =~= before.push(w@));
                assert forall|t: int|
                    0 <= t < k + 1 && !seen_set@.contains(#[trigger] ix.attachment_ids@[t]) implies warnings_view(
                        missing@,
                    ).contains(
                        WarningView::MissingTopLevelAttachment(
                            candidates@[ix.attachment_ids@[t]][0],
                            ix.attachment_ids@[t],
                        ),
                    ) by {
                    if t < k {
                        let v = WarningView::MissingTopLevelAttachment(
                            candidates@[ix.attachment_ids@[t]][0],
                            ix.attachment_ids@[t],
                        );
                        let i = choose|i: int| 0 <= i < before.len() && before[i] == v;
                        assert(warnings_view(missing@)[i] == v);
                    } else {
                        assert(warnings_view(missing@)[before.len() as int] == w@);
                    }
                }
            }
        } else {
            assert(warnings_view(missing@) == before);
        }
        proof {
            if k + 1 < ix.attachment_ids@.len() {
                assert(ix.attachment_ids@[k as int] < ix.attachment_ids@[k + 1]);
            }
        }
        k = k + 1;
    }
    proof {
        let ws = warnings_view(missing@);
        assert forall|a: i64| candidates@.contains_key(a) && !seen_set@.contains(a) implies exists|
            i: int,
        | 0 <= i < ws.len() && #[trigger] ws[i] == WarningView::MissingTopLevelAttachment(
            candidates@[a][0],
            a,
        ) by {
            assert(ix.attachment_ids@.contains(a));
            let t = choose|t: int| 0 <= t < ix.attachment_ids@.len() && ix.attachment_ids@[t] == a;
            assert(!seen_set@.contains(ix.attachment_ids@[t]));
            assert(ws.contains(WarningView::MissingTopLevelAttachment(candidates@[a][0], a)));
        }
    }
    missing
}

/// Every journal list of the index is non-empty.
pub open spec fn candidates_well_formed_lengths(candidates: Map<i64, Seq<i64>>) -> bool {
    forall|a: i64| #[trigger] candidates.contains_key(a) ==> candidates[a].len() > 0
}

/// Each attachment with a journal that has notes: the first journal naming it
/// that has notes, or else the journals with notes in turn. What cannot be
/// carried over, or looks inconsistent, is reported as a warning; malformed or
/// repeated attachments and malformed journals are refused.
pub fn associate_attachments_with_fallback(
    journals: &[RedmineJournal],
    attachments: &[RedmineAttachment],
) -> (r: Result<AttachmentAssociationResult, ImportError>)
    ensures
        match attachment_journal_candidates(journals@) {
            Err(e) => r matches Err(f) && f == e,
            Ok(candidates) => match fallback_associations(journals@, candidates, attachments@) {
                Err(e) => r matches Err(f) && f == e,
                Ok((turn, seen, done, warnings)) => r matches Ok(result) && {
                    &&& result.associations@ == done
                    &&& result.warnings@.len() >= warnings.len()
                    &&& warnings_view(result.warnings@).subrange(0, warnings.len() as int)
                        == warnings
                    &&& missing_attachment_warnings(
                        warnings_view(result.warnings@).subrange(
                            warnings.len() as int,
                            result.warnings@.len() as int,
                        ),
                        candidates,
                        seen,
                    )
                },
            },
        },
{
    let ix = match index_attachment_journal_candidates(journals) {
        Err(e) => return Err(e),
        Ok(ix) => ix,
    };
    let ghost candidates = attachment_journal_candidates(journals@)->Ok_0;
    let fallback = fallback_journal_ids_exec(journals);
    let ghost goal = fallback_associations(journals@, candidates, attachments@);
    let mut turn: usize = 0;
    let mut seen: Vec<i64> = Vec::new();
    let ghost mut seen_set: Set<i64> = Set::empty();
    let mut associations: Vec<RedmineAttachmentAssociation> = Vec::new();
    let mut warnings: Vec<AttachmentWarning> = Vec::new();
    let mut n: usize = 0;
    assert(attachments@.subrange(0, attachments@.len() as int) =~= attachments@);
    assert(associations@ =~= Seq::<RedmineAttachmentAssociation>::empty());
    assert(warnings_view(warnings@) =~= Seq::<WarningView>::empty());
    assert(attachment_journal_candidates(journals@) == Ok::<Map<i64, Seq<i64>>, ImportError>(candidates));
    while n < attachments.len()
        invariant
            attachment_journal_candidates(journals@) == Ok::<Map<i64, Seq<i64>>, ImportError>(candidates),
            goal == fallback_associations(journals@, candidates, attachments@),
            ix.holds(candidates),
            candidates_well_formed(candidates, journals@),
            fallback@ == fallback_journal_ids(journals@),
            n <= attachments@.len(),
            turn <= n,
            forall|a: i64| seen_set.contains(a) <==> seen@.contains(a),
            goal == fallback_all(
                journals@,
                candidates,
                fallback@,
                (turn as nat, seen_set, associations@, warnings_view(warnings@)),
                attachments@.subrange(n as int, attachments@.len() as int),
            ),
        decreases attachments@.len() - n,
    {
        let attachment = &attachments[n];
        let ghost rest = attachments@.subrange(n as int, attachments@.len() as int);
        assert(rest[0] == *attachment);
        assert(rest.drop_first() =~= attachments@.subrange(n + 1, attachments@.len() as int));
        if attachment.id <= 0 {
            return Err(ImportError::InvalidAttachmentId { attachment_id: attachment.id });
        }
        if attachment.filename.as_str().is_empty() {
            return Err(ImportError::EmptyAttachmentFilename { attachment_id: attachment.id });
        }
        if seen_contains(&seen, attachment.id) {
            return Err(ImportError::DuplicateAttachmentId { attachment_id: attachment.id });
        }
        let ghost seen_before = seen@;
        seen.push(attachment.id);
        proof {
            assert(seen@.subrange(0, seen@.len() - 1) =~= seen_before);
            seen_set = seen_set.insert(attachment.id);
            assert forall|a: i64| seen_set.contains(a) <==> seen@.contains(a) by {
                if a == attachment.id {
                    assert(seen@[seen@.len() - 1] == a);
                } else if seen@.contains(a) {
                    let t = choose|t: int| 0 <= t < seen@.len() && seen@[t] == a;
                    assert(t < seen@.len() - 1);
                    assert(seen@.subrange(0, seen@.len() - 1)[t] == a);
                }
            }
        }
        let ids: Vec<i64> = match lookup_candidates(&ix, Ghost(candidates), attachment.id) {
            Some(i) => {
                let listed = ix.journal_ids[i].clone();
                assert(listed@ =~= ix.journal_ids@[i as int]@);
                listed
            },
            None => Vec::new(),
        };
        assert(ids@ == (if candidates.contains_key(attachment.id) {
            candidates[attachment.id]
        } else {
            Seq::empty()
        }));
        let with_notes = candidates_with_notes_exec(journals, &ids);
        let journal_id: i64;
        let ghost warnings_before = warnings_view(warnings@);
        if with_notes.len() > 0 {
            journal_id = with_notes[0];
        } else if fallback.len() > 0 {
            journal_id = fallback[turn % fallback.len()];
            let why = if ids.len() == 0 {
                AttachmentWarning::FallbackWithoutDetail { attachment_id: attachment.id, journal_id }
            } else if ids.len() > 1 {
                AttachmentWarning::FallbackFromSeveralJournals {
                    attachment_id: attachment.id,
                    candidate_journal_ids: ids.clone(),
                    journal_id,
                }
            } else {
                AttachmentWarning::FallbackFromEmptyJournal {
                    attachment_id: attachment.id,
                    empty_journal_id: ids[0],
                    journal_id,
                }
            };
            warnings.push(why);
            assert(warnings_view(warnings@) =~= warnings_before.push(why@));
            turn = turn + 1;
        } else {
            warnings.push(AttachmentWarning::NoJournalWithNotes { attachment_id: attachment.id });
            assert(warnings_view(warnings@) =~= warnings_before.push(
                WarningView::NoJournalWithNotes(attachment.id),
            ));
            n = n + 1;
            continue;
        }
        let name = decimal_chars(attachment.id);
        let detail = detail_in_candidates_exec(journals, &ids, &name, Ghost(attachment.id));
        let ghost before_mismatch = warnings_view(warnings@);
        if let Some(detail_filename) = mismatched_filename_exec(detail, attachment) {
            let w = AttachmentWarning::FilenameMismatch {
                attachment_id: attachment.id,
                detail_filename,
                attachment_filename: attachment.filename.clone(),
            };
            warnings.push(w);
            assert(warnings_view(warnings@) =~= before_mismatch + seq![w@]);
        } else {
            assert(warnings_view(warnings@) =~= before_mismatch + Seq::<WarningView>::empty());
        }
        associations.push(RedmineAttachmentAssociation { journal_id, attachment: attachment.clone() });
        n = n + 1;
    }
    assert(attachments@.subrange(n as int, attachments@.len() as int) =~= Seq::<RedmineAttachment>::empty());
    let ghost loop_warnings = warnings_view(warnings@);
    assert(candidates_well_formed_lengths(candidates)) by {
        assert forall|a: i64| #[trigger] candidates.contains_key(a) implies candidates[a].len() > 0 by {
            assert(candidates[a].len() > 0);
        }
    }
    let missing = missing_attachment_warnings_exec(&ix, Ghost(candidates), &seen, Ghost(seen_set));
    let mut m: usize = 0;
    while m < missing.len()
        invariant
            m <= missing@.len(),
            warnings_view(warnings@) == loop_warnings + warnings_view(missing@.subrange(0, m as int)),
        decreases missing@.len() - m,
    {
        let ghost before = warnings_view(warnings@);
        let w = missing[m].clone();
        warnings.push(w);
        proof {
            assert(warnings_view(missing@.subrange(0, m + 1)) =~= warnings_view(
                missing@.subrange(0, m as int),
            ).push(missing@[m as int]@));
            assert(warnings_view(warnings@) =~= before.push(w@));
        }
        m = m + 1;
    }
    proof {
        assert(missing@.subrange(0, missing@.len() as int) =~= missing@);
        assert(warnings_view(warnings@).subrange(0, loop_warnings.len() as int) =~= loop_warnings);
        assert(warnings_view(warnings@).subrange(loop_warnings.len() as int, warnings@.len() as int)
            =~= warnings_view(missing@));
    }
    Ok(AttachmentAssociationResult { associations, warnings })
}

/// Some journal with this ID has notes.
pub open spec fn is_noted_journal_id(journals: Seq<RedmineJournal>, id: i64) -> bool {
    exists|j: int| 0 <= j < journals.len() && #[trigger] journals[j].id == id && !notes_blank(journals[j])
}

/// The first journal with this ID has notes.
pub open spec fn first_has_notes(journals: Seq<RedmineJournal>, id: i64) -> bool {
    first_journal(journals, id) matches Some(j) && !notes_blank(j)
}

/// The journals that name an attachment, as the candidate index lists them.
pub open spec fn candidate_ids(candidates: Map<i64, Seq<i64>>, attachment_id: i64) -> Seq<i64> {
    if candidates.contains_key(attachment_id) {
        candidates[attachment_id]
    } else {
        Seq::empty()
    }
}

/// No journal that names the attachment has notes.
pub open spec fn lacks_noted_candidate(
    journals: Seq<RedmineJournal>,
    candidates: Map<i64, Seq<i64>>,
    a: RedmineAttachment,
) -> bool {
    candidates_with_notes(journals, candidate_ids(candidates, a.id)).len() == 0
}

/// How many of the first `i` attachments lack a candidate with notes.
pub open spec fn lacking_before(
    journals: Seq<RedmineJournal>,
    candidates: Map<i64, Seq<i64>>,
    attachments: Seq<RedmineAttachment>,
    i: int,
) -> nat
    decreases i,
{
    if i <= 0 {
        0
    } else {
        lacking_before(journals, candidates, attachments, i - 1) + if lacks_noted_candidate(
            journals,
            candidates,
            attachments[i - 1],
        ) {
            1nat
        } else {
            0nat
        }
    }
}

/// The journal an attachment goes to when journals with notes exist: its
/// first candidate with notes, else the fallback journal of its turn.
pub open spec fn chosen_journal(
    journals: Seq<RedmineJournal>,
    candidates: Map<i64, Seq<i64>>,
    fallback: Seq<i64>,
    turn: nat,
    a: RedmineAttachment,
) -> i64 {
    let noted = candidates_with_notes(journals, candidate_ids(candidates, a.id));
    if noted.len() > 0 {
        noted[0]
    } else {
        fallback[(turn % fallback.len()) as int]
    }
}

/// An attachment without a positive ID or without a filename.
pub open spec fn attachment_is_malformed(a: RedmineAttachment) -> bool {
    a.id <= 0 || a.filename@.len() == 0
}

/// Two attachments share an ID.
pub open spec fn attachment_ids_repeat(attachments: Seq<RedmineAttachment>) -> bool {
    exists|i: int, j: int|
        0 <= j < i < attachments.len() && #[trigger] attachments[i].id == #[trigger] attachments[j].id
}

proof fn lemma_first_journal_in(journals: Seq<RedmineJournal>, id: i64)
    ensures
        first_journal(journals, id) matches Some(j) ==> j.id == id && exists|k: int|
            0 <= k < journals.len() && #[trigger] journals[k] == j,
    decreases journals.len(),
{
    if journals.len() > 0 && journals[0].id != id {
        lemma_first_journal_in(journals.drop_first(), id);
        if let Some(j) = first_journal(journals, id) {
            let k = choose|k: int| 0 <= k < journals.len() - 1 && #[trigger] journals.drop_first()[k] == j;
            assert(journals[k + 1] == j);
        }
    } else if journals.len() > 0 {
        assert(journals[0] == journals[0]);
    }
}

/// The candidates with notes are those, among `ids`, whose first journal has
/// notes: there are none exactly when no candidate has notes, and the first
/// of them is the earliest candidate that has notes.
pub proof fn lemma_noted_candidates(journals: Seq<RedmineJournal>, ids: Seq<i64>)
    ensures
        forall|t: int|
            0 <= t < candidates_with_notes(journals, ids).len() ==> first_has_notes(
                journals,
                #[trigger] candidates_with_notes(journals, ids)[t],
            ),
        candidates_with_notes(journals, ids).len() == 0 <==> forall|t: int|
            0 <= t < ids.len() ==> !first_has_notes(journals, #[trigger] ids[t]),
        candidates_with_notes(journals, ids).len() > 0 ==> exists|t: int|
            0 <= t < ids.len() && candidates_with_notes(journals, ids)[0] == #[trigger] ids[t]
                && first_has_notes(journals, ids[t]) && forall|u: int|
                0 <= u < t ==> !first_has_notes(journals, #[trigger] ids[u]),
    decreases ids.len(),
{
    if ids.len() > 0 {
        let front = ids.drop_last();
        lemma_noted_candidates(journals, front);
        let c = candidates_with_notes(journals, ids);
        let cf = candidates_with_notes(journals, front);
        assert(forall|t: int| 0 <= t < front.len() ==> front[t] == ids[t]);
        if cf.len() > 0 {
            let t = choose|t: int|
                0 <= t < front.len() && cf[0] == #[trigger] front[t] && first_has_notes(journals, front[t])
                    && forall|u: int| 0 <= u < t ==> !first_has_notes(journals, #[trigger] front[u]);
            assert(c[0] == ids[t]);
            assert forall|u: int| 0 <= u < t implies !first_has_notes(journals, #[trigger] ids[u]) by {
                assert(ids[u] == front[u]);
            }
        } else if c.len() > 0 {
            let t = ids.len() - 1;
            assert(c[0] == ids[t]);
            assert forall|u: int| 0 <= u < t implies !first_has_notes(journals, #[trigger] ids[u]) by {
                assert(ids[u] == front[u]);
            }
        }
        if c.len() == 0 {
            assert forall|t: int| 0 <= t < ids.len() implies !first_has_notes(journals, #[trigger] ids[t]) by {
                if t < front.len() {
                    assert(ids[t] == front[t]);
                }
            }
        }
    }
}

/// Every fallback journal ID is that of a journal with notes, and there is
/// one as soon as some journal has notes.
pub proof fn lemma_fallback_ids_noted(journals: Seq<RedmineJournal>)
    ensures
        forall|t: int|
            0 <= t < fallback_journal_ids(journals).len() ==> is_noted_journal_id(
                journals,
                #[trigger] fallback_journal_ids(journals)[t],
            ),
        (exists|j: int| 0 <= j < journals.len() && !notes_blank(#[trigger] journals[j]))
            ==> fallback_journal_ids(journals).len() > 0,
    decreases journals.len(),
{
    if journals.len() > 0 {
        let front = journals.drop_last();
        lemma_fallback_ids_noted(front);
        let fb = fallback_journal_ids(journals);
        let ff = fallback_journal_ids(front);
        assert forall|t: int| 0 <= t < fb.len() implies is_noted_journal_id(journals, #[trigger] fb[t]) by {
            if t < ff.len() {
                assert(fb[t] == ff[t]);
                let j = choose|j: int| 0 <= j < front.len() && #[trigger] front[j].id == ff[t]
                    && !notes_blank(front[j]);
                assert(journals[j] == front[j]);
            } else {
                assert(journals[journals.len() - 1] == journals.last());
            }
        }
        if exists|j: int| 0 <= j < journals.len() && !notes_blank(#[trigger] journals[j]) {
            let j = choose|j: int| 0 <= j < journals.len() && !notes_blank(#[trigger] journals[j]);
            if j < front.len() {
                assert(front[j] == journals[j]);
            }
        }
    }
}

proof fn lemma_fallback_refused_iff(
    journals: Seq<RedmineJournal>,
    candidates: Map<i64, Seq<i64>>,
    fallback: Seq<i64>,
    progress: FallbackProgress,
    attachments: Seq<RedmineAttachment>,
)
    ensures
        fallback_all(journals, candidates, fallback, progress, attachments) is Err <==> (exists|i: int|
            0 <= i < attachments.len() && (attachment_is_malformed(#[trigger] attachments[i])
                || progress.1.contains(attachments[i].id))) || attachment_ids_repeat(attachments),
    decreases attachments.len(),
{
    if attachments.len() > 0 {
        let a = attachments[0];
        let rest = attachments.drop_first();
        if attachment_refusal(progress.1, a) is Some {
            assert(attachment_is_malformed(attachments[0]) || progress.1.contains(attachments[0].id));
        } else {
            let next = fallback_step(journals, candidates, fallback, progress, a)->Ok_0;
            assert(next.1 == progress.1.insert(a.id));
            lemma_fallback_refused_iff(journals, candidates, fallback, next, rest);
            if exists|i: int|
                0 <= i < attachments.len() && (attachment_is_malformed(#[trigger] attachments[i])
                    || progress.1.contains(attachments[i].id)) {
                let i = choose|i: int|
                    0 <= i < attachments.len() && (attachment_is_malformed(#[trigger] attachments[i])
                        || progress.1.contains(attachments[i].id));
                assert(rest[i - 1] == attachments[i]);
                assert(attachment_is_malformed(rest[i - 1]) || next.1.contains(rest[i - 1].id));
            }
            if attachment_ids_repeat(attachments) {
                let (i, j) = choose|i: int, j: int|
                    0 <= j < i < attachments.len() && #[trigger] attachments[i].id
                        == #[trigger] attachments[j].id;
                assert(rest[i - 1] == attachments[i]);
                if j == 0 {
                    assert(next.1.contains(rest[i - 1].id));
                } else {
                    assert(rest[j - 1] == attachments[j]);
                    assert(rest[i - 1].id == rest[j - 1].id);
                }
            }
            if exists|i: int|
                0 <= i < rest.len() && (attachment_is_malformed(#[trigger] rest[i]) || next.1.contains(
                    rest[i].id,
                )) {
                let i = choose|i: int|
                    0 <= i < rest.len() && (attachment_is_malformed(#[trigger] rest[i])
                        || next.1.contains(rest[i].id));
                assert(attachments[i + 1] == rest[i]);
                if rest[i].id == a.id && !attachment_is_malformed(rest[i]) && !progress.1.contains(
                    rest[i].id,
                ) {
                    assert(attachments[i + 1].id == attachments[0].id);
                } else {
                    assert(attachment_is_malformed(attachments[i + 1]) || progress.1.contains(
                        attachments[i + 1].id,
                    ));
                }
            }
            if attachment_ids_repeat(rest) {
                let (i, j) = choose|i: int, j: int|
                    0 <= j < i < rest.len() && #[trigger] rest[i].id == #[trigger] rest[j].id;
                assert(attachments[i + 1] == rest[i]);
                assert(attachments[j + 1] == rest[j]);
                assert(attachments[i + 1].id == attachments[j + 1].id);
            }
        }
    }
}

proof fn lemma_lacking_shift(
    journals: Seq<RedmineJournal>,
    candidates: Map<i64, Seq<i64>>,
    attachments: Seq<RedmineAttachment>,
    i: int,
)
    requires
        attachments.len() > 0,
        0 <= i < attachments.len(),
    ensures
        lacking_before(journals, candidates, attachments, i + 1) == lacking_before(
            journals,
            candidates,
            attachments.drop_first(),
            i,
        ) + if lacks_noted_candidate(journals, candidates, attachments[0]) {
            1nat
        } else {
            0nat
        },
    decreases i,
{
    let rest = attachments.drop_first();
    if i > 0 {
        lemma_lacking_shift(journals, candidates, attachments, i - 1);
        assert(rest[i - 1] == attachments[i]);
        assert(lacking_before(journals, candidates, rest, i) == lacking_before(
            journals,
            candidates,
            rest,
            i - 1,
        ) + if lacks_noted_candidate(journals, candidates, rest[i - 1]) {
            1nat
        } else {
            0nat
        });
    } else {
        assert(lacking_before(journals, candidates, attachments, 0) == 0);
        assert(lacking_before(journals, candidates, rest, 0) == 0);
    }
}

proof fn lemma_fallback_choices(
    journals: Seq<RedmineJournal>,
    candidates: Map<i64, Seq<i64>>,
    fallback: Seq<i64>,
    progress: FallbackProgress,
    attachments: Seq<RedmineAttachment>,
)
    requires
        fallback.len() > 0,
        fallback_all(journals, candidates, fallback, progress, attachments) is Ok,
    ensures
        ({
            let done = fallback_all(journals, candidates, fallback, progress, attachments)->Ok_0.2;
            let before = progress.2.len();
            &&& done.len() == before + attachments.len()
            &&& done.subrange(0, before as int) == progress.2
            &&& forall|i: int|
                0 <= i < attachments.len() ==> #[trigger] done[before + i]
                    == RedmineAttachmentAssociation {
                    journal_id: chosen_journal(
                        journals,
                        candidates,
                        fallback,
                        progress.0 + lacking_before(journals, candidates, attachments, i),
                        attachments[i],
                    ),
                    attachment: attachments[i],
                }
        }),
    decreases attachments.len(),
{
    let done = fallback_all(journals, candidates, fallback, progress, attachments)->Ok_0.2;
    let before = progress.2.len();
    if attachments.len() == 0 {
        assert(done =~= progress.2);
    } else {
        let a = attachments[0];
        let rest = attachments.drop_first();
        let next = fallback_step(journals, candidates, fallback, progress, a)->Ok_0;
        lemma_fallback_choices(journals, candidates, fallback, next, rest);
        assert(next.2 == progress.2.push(
            RedmineAttachmentAssociation {
                journal_id: chosen_journal(journals, candidates, fallback, progress.0, a),
                attachment: a,
            },
        ));
        assert(next.0 == progress.0 + if lacks_noted_candidate(journals, candidates, a) {
            1nat
        } else {
            0nat
        });
        assert(done.subrange(0, before as int) =~= progress.2) by {
            assert(done.subrange(0, before + 1int) == next.2);
            assert forall|k: int| 0 <= k < before implies done[k] == progress.2[k] by {
                assert(done.subrange(0, before + 1int)[k] == done[k]);
                assert(next.2[k] == progress.2[k]);
            }
        }
        assert forall|i: int| 0 <= i < attachments.len() implies #[trigger] done[before + i]
            == RedmineAttachmentAssociation {
            journal_id: chosen_journal(
                journals,
                candidates,
                fallback,
                progress.0 + lacking_before(journals, candidates, attachments, i),
                attachments[i],
            ),
            attachment: attachments[i],
        } by {
            if i == 0 {
                assert(done.subrange(0, before + 1int)[before as int] == done[before as int]);
            } else {
                assert(rest[i - 1] == attachments[i]);
                lemma_lacking_shift(journals, candidates, attachments, i - 1);
                assert(done[(before + 1) + (i - 1)] == done[before + i]);
            }
        }
    }
}

proof fn lemma_fallback_kept(
    journals: Seq<RedmineJournal>,
    candidates: Map<i64, Seq<i64>>,
    fallback: Seq<i64>,
    progress: FallbackProgress,
    attachments: Seq<RedmineAttachment>,
) -> (idx: Seq<int>)
    requires
        fallback_all(journals, candidates, fallback, progress, attachments) is Ok,
        forall|t: int| 0 <= t < fallback.len() ==> is_noted_journal_id(journals, #[trigger] fallback[t]),
    ensures
        ({
            let done = fallback_all(journals, candidates, fallback, progress, attachments)->Ok_0.2;
            let before = progress.2.len();
            &&& done.len() == before + idx.len()
            &&& done.subrange(0, before as int) == progress.2
            &&& forall|k: int|
                0 <= k < idx.len() ==> 0 <= #[trigger] idx[k] < attachments.len() && done[before
                    + k].attachment == attachments[idx[k]] && is_noted_journal_id(
                    journals,
                    done[before + k].journal_id,
                )
            &&& forall|k1: int, k2: int| 0 <= k1 < k2 < idx.len() ==> idx[k1] < idx[k2]
        }),
    decreases attachments.len(),
{
    let done = fallback_all(journals, candidates, fallback, progress, attachments)->Ok_0.2;
    let before = progress.2.len();
    if attachments.len() == 0 {
        assert(done =~= progress.2);
        Seq::empty()
    } else {
        let a = attachments[0];
        let rest = attachments.drop_first();
        let next = fallback_step(journals, candidates, fallback, progress, a)->Ok_0;
        let inner = lemma_fallback_kept(journals, candidates, fallback, next, rest);
        let shifted = inner.map_values(|k: int| k + 1);
        let ids = candidate_ids(candidates, a.id);
        lemma_noted_candidates(journals, ids);
        let noted = candidates_with_notes(journals, ids);
        if next.2.len() == before {
            assert(next.2 == progress.2);
            assert forall|k: int| 0 <= k < shifted.len() implies 0 <= #[trigger] shifted[k]
                < attachments.len() && done[before + k].attachment == attachments[shifted[k]]
                && is_noted_journal_id(journals, done[before + k].journal_id) by {
                assert(rest[inner[k]] == attachments[inner[k] + 1]);
            }
            shifted
        } else {
            let journal_id = done[before as int].journal_id;
            assert(next.2 == progress.2.push(RedmineAttachmentAssociation { journal_id: next.2[before as int].journal_id, attachment: a }));
            assert(done.subrange(0, before + 1int) == next.2);
            assert(done.subrange(0, before + 1int)[before as int] == done[before as int]);
            if noted.len() > 0 {
                assert(first_has_notes(journals, noted[0]));
                lemma_first_journal_in(journals, noted[0]);
                let jn = first_journal(journals, noted[0])->Some_0;
                let k = choose|k: int| 0 <= k < journals.len() && #[trigger] journals[k] == jn;
                assert(journals[k].id == journal_id);
            } else {
                let t = (progress.0 % fallback.len()) as int;
                assert(is_noted_journal_id(journals, fallback[t]));
            }
            let idx = seq![0int] + shifted;
            assert(done.subrange(0, before as int) =~= progress.2) by {
                assert forall|k: int| 0 <= k < before implies done[k] == progress.2[k] by {
                    assert(done.subrange(0, before + 1int)[k] == done[k]);
                }
            }
            assert forall|k: int| 0 <= k < idx.len() implies 0 <= #[trigger] idx[k] < attachments.len()
                && done[before + k].attachment == attachments[idx[k]] && is_noted_journal_id(
                journals,
                done[before + k].journal_id,
            ) by {
                if k > 0 {
                    assert(idx[k] == inner[k - 1] + 1);
                    assert(rest[inner[k - 1]] == attachments[inner[k - 1] + 1]);
                    assert(done[(before + 1) + (k - 1)] == done[before + k]);
                }
            }
            assert forall|k1: int, k2: int| 0 <= k1 < k2 < idx.len() implies idx[k1] < idx[k2] by {
                if k1 > 0 {
                    assert(idx[k1] == inner[k1 - 1] + 1);
                }
                assert(idx[k2] == inner[k2 - 1] + 1);
            }
            idx
        }
    }
}

/// The result with fallback: refused exactly when a journal ID is not
/// positive, an attachment detail does not name a positive ID, an
/// attachment has no positive ID or no filename, or two attachments share
/// an ID.
pub open spec fn fallback_refused(journals: Seq<RedmineJournal>, attachments: Seq<RedmineAttachment>) -> bool {
    match attachment_journal_candidates(journals) {
        Err(_) => true,
        Ok(candidates) => fallback_associations(journals, candidates, attachments) is Err,
    }
}

/// Association with fallback is refused exactly when a journal ID is not
/// positive, an attachment detail does not name a positive ID, an attachment
/// has no positive ID or no filename, or two attachments share an ID.
pub proof fn lemma_fallback_refused_exactly(
    journals: Seq<RedmineJournal>,
    attachments: Seq<RedmineAttachment>,
)
    ensures
        fallback_refused(journals, attachments) <==> !journals_are_valid(journals) || (exists|i: int|
            0 <= i < attachments.len() && attachment_is_malformed(#[trigger] attachments[i]))
            || attachment_ids_repeat(attachments),
{
    lemma_candidates_contents(journals);
    if let Ok(candidates) = attachment_journal_candidates(journals) {
        lemma_fallback_refused_iff(
            journals,
            candidates,
            fallback_journal_ids(journals),
            (0, Set::empty(), Seq::empty(), Seq::empty()),
            attachments,
        );
    }
}

/// Association with fallback keeps the attachments it associates in their
/// input order, each with a journal that has notes. When some journal has
/// notes, every attachment is kept: each goes to the first journal naming
/// it whose notes are not blank, and the attachments without one go to the
/// journals with notes in turn (the `k`-th such attachment to the `k`-th
/// journal with notes, round robin). When no journal has notes, none is
/// kept.
pub proof fn lemma_fallback_associations(
    journals: Seq<RedmineJournal>,
    attachments: Seq<RedmineAttachment>,
)
    requires
        !fallback_refused(journals, attachments),
    ensures
        ({
            let candidates = attachment_journal_candidates(journals)->Ok_0;
            let done = fallback_associations(journals, candidates, attachments)->Ok_0.2;
            let fallback = fallback_journal_ids(journals);
            &&& exists|idx: Seq<int>|
                {
                    &&& #[trigger] idx.len() == done.len()
                    &&& forall|k: int|
                        0 <= k < idx.len() ==> 0 <= idx[k] < attachments.len() && (
                        #[trigger] done[k]).attachment == attachments[idx[k]]
                    &&& forall|k1: int, k2: int| 0 <= k1 < k2 < idx.len() ==> idx[k1] < idx[k2]
                }
            &&& forall|k: int|
                0 <= k < done.len() ==> is_noted_journal_id(journals, (#[trigger] done[k]).journal_id)
            &&& fallback.len() == 0 ==> done.len() == 0
            &&& fallback.len() > 0 ==> {
                &&& done.len() == attachments.len()
                &&& forall|i: int|
                    0 <= i < attachments.len() ==> (#[trigger] done[i]).attachment == attachments[i]
                        && done[i].journal_id == chosen_journal(
                        journals,
                        candidates,
                        fallback,
                        lacking_before(journals, candidates, attachments, i),
                        attachments[i],
                    )
            }
        }),
{
    let candidates = attachment_journal_candidates(journals)->Ok_0;
    let fallback = fallback_journal_ids(journals);
    let start: FallbackProgress = (0, Set::empty(), Seq::empty(), Seq::empty());
    let done = fallback_associations(journals, candidates, attachments)->Ok_0.2;
    lemma_fallback_ids_noted(journals);
    let idx = lemma_fallback_kept(journals, candidates, fallback, start, attachments);
    assert forall|k: int| 0 <= k < idx.len() implies 0 <= idx[k] < attachments.len() && (
        #[trigger] done[k]).attachment == attachments[idx[k]] by {
        assert(done[0 + k] == done[k]);
    }
    assert forall|k: int| 0 <= k < done.len() implies is_noted_journal_id(
        journals,
        (#[trigger] done[k]).journal_id,
    ) by {
        assert(done[0 + k] == done[k]);
    }
    if fallback.len() == 0 && done.len() > 0 {
        assert(is_noted_journal_id(journals, done[0].journal_id));
        let j = choose|j: int| 0 <= j < journals.len() && #[trigger] journals[j].id == done[0].journal_id
            && !notes_blank(journals[j]);
        assert(!notes_blank(journals[j]));
    }
    if fallback.len() > 0 {
        lemma_fallback_choices(journals, candidates, fallback, start, attachments);
        assert forall|i: int| 0 <= i < attachments.len() implies (#[trigger] done[i]).attachment
            == attachments[i] && done[i].journal_id == chosen_journal(
            journals,
            candidates,
            fallback,
            lacking_before(journals, candidates, attachments, i),
            attachments[i],
        ) by {
            assert(done[0 + i] == done[i]);
        }
    }
}

proof fn lemma_strict_accepted(
    journals: Seq<RedmineJournal>,
    index: Map<i64, i64>,
    seen: Set<i64>,
    done: Seq<RedmineAttachmentAssociation>,
    attachments: Seq<RedmineAttachment>,
)
    requires
        strict_all(journals, index, seen, done, attachments) is Ok,
    ensures
        ({
            let (s, d) = strict_all(journals, index, seen, done, attachments)->Ok_0;
            &&& d.len() == done.len() + attachments.len()
            &&& d.subrange(0, done.len() as int) == done
            &&& forall|i: int|
                0 <= i < attachments.len() ==> {
                    let a = #[trigger] attachments[i];
                    &&& d[done.len() + i].attachment == a
                    &&& index.contains_key(a.id)
                    &&& d[done.len() + i].journal_id == index[a.id]
                    &&& first_has_notes(journals, index[a.id])
                    &&& mismatched_filename(
                        detail_in_journals_with_id(journals, index[a.id], a.id),
                        a,
                    ) is None
                    &&& !seen.contains(a.id)
                }
            &&& forall|x: i64|
                #[trigger] s.contains(x) <==> seen.contains(x) || exists|i: int|
                    0 <= i < attachments.len() && #[trigger] attachments[i].id == x
        }),
    decreases attachments.len(),
{
    let (s, d) = strict_all(journals, index, seen, done, attachments)->Ok_0;
    if attachments.len() == 0 {
        assert(d =~= done);
    } else {
        let a = attachments[0];
        let rest = attachments.drop_first();
        let (seen1, done1) = strict_step(journals, index, seen, done, a)->Ok_0;
        lemma_strict_accepted(journals, index, seen1, done1, rest);
        assert(done1 == done.push(RedmineAttachmentAssociation { journal_id: index[a.id], attachment: a }));
        assert(seen1 == seen.insert(a.id));
        assert(d.subrange(0, done.len() as int) =~= done) by {
            assert forall|k: int| 0 <= k < done.len() implies d[k] == done[k] by {
                assert(d.subrange(0, done1.len() as int)[k] == d[k]);
                assert(done1[k] == done[k]);
            }
        }
        assert forall|i: int| 0 <= i < attachments.len() implies {
            let a = #[trigger] attachments[i];
            &&& d[done.len() + i].attachment == a
            &&& index.contains_key(a.id)
            &&& d[done.len() + i].journal_id == index[a.id]
            &&& first_has_notes(journals, index[a.id])
            &&& mismatched_filename(detail_in_journals_with_id(journals, index[a.id], a.id), a) is None
            &&& !seen.contains(a.id)
        } by {
            if i == 0 {
                assert(d.subrange(0, done1.len() as int)[done.len() as int] == d[done.len() as int]);
            } else {
                assert(rest[i - 1] == attachments[i]);
                assert(d[done1.len() + (i - 1)] == d[done.len() + i]);
            }
        }
        assert forall|x: i64| #[trigger] s.contains(x) <==> seen.contains(x) || exists|i: int|
            0 <= i < attachments.len() && #[trigger] attachments[i].id == x by {
            if exists|i: int| 0 <= i < rest.len() && #[trigger] rest[i].id == x {
                let i = choose|i: int| 0 <= i < rest.len() && #[trigger] rest[i].id == x;
                assert(attachments[i + 1] == rest[i]);
            }
            if exists|i: int| 0 <= i < attachments.len() && #[trigger] attachments[i].id == x {
                let i = choose|i: int| 0 <= i < attachments.len() && #[trigger] attachments[i].id == x;
                if i > 0 {
                    assert(rest[i - 1] == attachments[i]);
                }
            }
        }
    }
}

/// A strict association that is accepted keeps the attachments' number and
/// order, and gives each attachment the journal that names it in its
/// details, the only journal ID that names it, whose notes are not blank,
/// and whose first detail for it records no other filename; and every
/// attachment that a journal names is among the attachments.
pub proof fn lemma_strict_associations(journals: Seq<RedmineJournal>, attachments: Seq<RedmineAttachment>)
    requires
        journal_index_built(journals),
        strict_all(
            journals,
            first_journals(attachment_journal_candidates(journals)->Ok_0),
            Set::empty(),
            Seq::empty(),
            attachments,
        ) is Ok,
        all_listed(
            first_journals(attachment_journal_candidates(journals)->Ok_0),
            strict_all(
                journals,
                first_journals(attachment_journal_candidates(journals)->Ok_0),
                Set::empty(),
                Seq::empty(),
                attachments,
            )->Ok_0.0,
        ),
    ensures
        ({
            let index = first_journals(attachment_journal_candidates(journals)->Ok_0);
            let list = strict_all(journals, index, Set::empty(), Seq::empty(), attachments)->Ok_0.1;
            &&& list.len() == attachments.len()
            &&& forall|i: int|
                0 <= i < attachments.len() ==> {
                    let a = #[trigger] attachments[i];
                    &&& list[i].attachment == a
                    &&& exists|j: int, d: int|
                        journal_names(journals, j, d, a.id) && journals[j].id == list[i].journal_id
                    &&& forall|j: int, d: int|
                        journal_names(journals, j, d, a.id) ==> journals[j].id == list[i].journal_id
                    &&& first_has_notes(journals, list[i].journal_id)
                    &&& mismatched_filename(
                        detail_in_journals_with_id(journals, list[i].journal_id, a.id),
                        a,
                    ) is None
                }
            &&& forall|j: int, d: int, x: i64|
                journal_names(journals, j, d, x) ==> exists|k: int|
                    0 <= k < attachments.len() && #[trigger] attachments[k].id == x
        }),
{
    let index = first_journals(attachment_journal_candidates(journals)->Ok_0);
    let (seen, list) = strict_all(journals, index, Set::empty(), Seq::empty(), attachments)->Ok_0;
    lemma_journal_index_built_iff(journals);
    lemma_strict_accepted(journals, index, Set::empty(), Seq::empty(), attachments);
    assert forall|i: int| 0 <= i < attachments.len() implies {
        let a = #[trigger] attachments[i];
        &&& list[i].attachment == a
        &&& exists|j: int, d: int|
            journal_names(journals, j, d, a.id) && journals[j].id == list[i].journal_id
        &&& forall|j: int, d: int|
            journal_names(journals, j, d, a.id) ==> journals[j].id == list[i].journal_id
        &&& first_has_notes(journals, list[i].journal_id)
        &&& mismatched_filename(detail_in_journals_with_id(journals, list[i].journal_id, a.id), a)
            is None
    } by {
        let a = attachments[i];
        assert(list[0 + i] == list[i]);
        assert(index.contains_key(a.id));
        let (j, d) = choose|j: int, d: int| journal_names(journals, j, d, a.id);
        assert(index[a.id] == journals[j].id);
        assert forall|j2: int, d2: int| journal_names(journals, j2, d2, a.id) implies journals[j2].id
            == list[i].journal_id by {
            assert(journal_names(journals, j2, d2, a.id));
        }
    }
    assert forall|j: int, d: int, x: i64| journal_names(journals, j, d, x) implies exists|k: int|
        0 <= k < attachments.len() && #[trigger] attachments[k].id == x by {
        assert(index.contains_key(x));
        assert(seen.contains(x));
    }
}

} // verus!
