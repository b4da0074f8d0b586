//! Which journals name which attachments, read from the journals' attachment
//! details.

use vstd::prelude::*;

use std::collections::BTreeMap;

use crate::numbers::{parse_i64, parse_i64_exec};
use crate::redmine::model::{ImportError, RedmineJournal, RedmineJournalDetail};
use crate::text::chars_of;

verus! {

broadcast use vstd::std_specs::btree::group_btree_axioms, vstd::laws_cmp::group_laws_cmp;

/// A detail that records an attachment.
pub open spec fn is_attachment_detail(d: RedmineJournalDetail) -> bool {
    d.property@ == "attachment"@
}

/// `journal_id` recorded for `attachment_id`, once.
pub open spec fn add_candidate(index: Map<i64, Seq<i64>>, attachment_id: i64, journal_id: i64) -> Map<
    i64,
    Seq<i64>,
> {
    if index.contains_key(attachment_id) {
        if index[attachment_id].contains(journal_id) {
            index
        } else {
            index.insert(attachment_id, index[attachment_id].push(journal_id))
        }
    } else {
        index.insert(attachment_id, seq![journal_id])
    }
}

/// The attachment details of one journal added to `index`, in order; a
/// detail whose name is not a positive integer is refused.
pub open spec fn index_details(
    index: Map<i64, Seq<i64>>,
    journal_id: i64,
    details: Seq<RedmineJournalDetail>,
) -> Result<Map<i64, Seq<i64>>, ImportError>
    decreases details.len(),
{
    if details.len() == 0 {
        Ok(index)
    } else {
        let d = details[0];
        if !is_attachment_detail(d) {
            index_details(index, journal_id, details.drop_first())
        } else {
            match parse_i64(d.name@) {
                None => Err(ImportError::AttachmentDetailNotAnId { journal_id, name: d.name }),
                Some(attachment_id) => if attachment_id <= 0 {
                    Err(
                        ImportError::InvalidAttachmentIdInJournal {
                            journal_id,
                            attachment_id: attachment_id as i64,
                        },
                    )
                } else {
                    index_details(
                        add_candidate(index, attachment_id as i64, journal_id),
                        journal_id,
                        details.drop_first(),
                    )
                },
            }
        }
    }
}

/// The journals added to `index`, in order; a journal ID that is not
/// positive is refused.
pub open spec fn index_journals(index: Map<i64, Seq<i64>>, journals: Seq<RedmineJournal>) -> Result<
    Map<i64, Seq<i64>>,
    ImportError,
>
    decreases journals.len(),
{
    if journals.len() == 0 {
        Ok(index)
    } else {
        let j = journals[0];
        if j.id <= 0 {
            Err(ImportError::InvalidJournalId { journal_id: j.id })
        } else {
            match index_details(index, j.id, j.details@) {
                Err(e) => Err(e),
                Ok(next) => index_journals(next, journals.drop_first()),
            }
        }
    }
}

/// For each attachment named in a journal detail, the journals that name it,
/// each once, in the order in which they name it.
pub open spec fn attachment_journal_candidates(journals: Seq<RedmineJournal>) -> Result<
    Map<i64, Seq<i64>>,
    ImportError,
> {
    index_journals(Map::empty(), journals)
}

/// Some journal of `journals` has this ID.
pub open spec fn is_journal_id(journals: Seq<RedmineJournal>, id: i64) -> bool {
    exists|i: int| 0 <= i < journals.len() && #[trigger] journals[i].id == id
}

/// Every journal list is non-empty, holds no journal twice, and holds only
/// IDs of journals in `journals`.
pub open spec fn candidates_well_formed(index: Map<i64, Seq<i64>>, journals: Seq<RedmineJournal>) -> bool {
    forall|a: i64|
        #![trigger index[a]]
        index.contains_key(a) ==> {
            &&& index[a].len() > 0
            &&& index[a].no_duplicates()
            &&& forall|t: int| 0 <= t < index[a].len() ==> is_journal_id(journals, #[trigger] index[a][t])
        }
}

/// The candidate index, held as attachment IDs in increasing order and the
/// journal lists that belong to them.
pub struct CandidateIndex {
    pub attachment_ids: Vec<i64>,
    pub journal_ids: Vec<Vec<i64>>,
}

impl CandidateIndex {
    /// `self` holds exactly the entries of `index`, keys in increasing order.
    pub open spec fn holds(&self, index: Map<i64, Seq<i64>>) -> bool {
        &&& self.attachment_ids@.len() == self.journal_ids@.len()
        &&& forall|i: int, j: int|
            0 <= i < j < self.attachment_ids@.len() ==> self.attachment_ids@[i]
                < self.attachment_ids@[j]
        &&& forall|i: int|
            0 <= i < self.attachment_ids@.len() ==> index.contains_key(
                #[trigger] self.attachment_ids@[i],
            ) && index[self.attachment_ids@[i]] == self.journal_ids@[i]@
        &&& forall|a: i64| index.contains_key(a) ==> self.attachment_ids@.contains(a)
    }

    fn add(
        &mut self,
        attachment_id: i64,
        journal_id: i64,
        index: Ghost<Map<i64, Seq<i64>>>,
        journals: Ghost<Seq<RedmineJournal>>,
    )
        requires
            old(self).holds(index@),
            candidates_well_formed(index@, journals@),
            is_journal_id(journals@, journal_id),
        ensures
            final(self).holds(add_candidate(index@, attachment_id, journal_id)),
            candidates_well_formed(add_candidate(index@, attachment_id, journal_id), journals@),
    {
        let ghost next = add_candidate(index@, attachment_id, journal_id);
        let mut pos: usize = 0;
        while pos < self.attachment_ids.len() && self.attachment_ids[pos] < attachment_id
            invariant
                pos <= self.attachment_ids@.len(),
                forall|i: int| 0 <= i < pos ==> self.attachment_ids@[i] < attachment_id,
            decreases self.attachment_ids@.len() - pos,
        {
            pos = pos + 1;
        }
        if pos < self.attachment_ids.len() && self.attachment_ids[pos] == attachment_id {
            let mut listed = false;
            let mut k: usize = 0;
            while k < self.journal_ids[pos].len()
                invariant
                    pos < self.journal_ids@.len(),
                    k <= self.journal_ids@[pos as int]@.len(),
                    listed == exists|t: int|
                        0 <= t < k && #[trigger] self.journal_ids@[pos as int]@[t] == journal_id,
                decreases self.journal_ids@[pos as int]@.len() - k,
            {
                if self.journal_ids[pos][k] == journal_id {
                    listed = true;
                }
                k = k + 1;
            }
            proof {
                let l = self.journal_ids@[pos as int]@;
                if listed {
                    let t = choose|t: int| 0 <= t < k && #[trigger] l[t] == journal_id;
                    assert(l.contains(journal_id));
                }
            }
            if !listed {
                let mut updated = self.journal_ids[pos].clone();
                assert(updated@ =~= self.journal_ids@[pos as int]@);
                updated.push(journal_id);
                let ghost before = self.journal_ids@;
                self.journal_ids.set(pos, updated);
                proof {
                    assert forall|i: int| 0 <= i < self.attachment_ids@.len() implies next.contains_key(
                        #[trigger] self.attachment_ids@[i],
                    ) && next[self.attachment_ids@[i]] == self.journal_ids@[i]@ by {
                        if i != pos {
                            assert(self.attachment_ids@[i] != attachment_id);
                        }
                    }
                    assert(next[attachment_id] == index@[attachment_id].push(journal_id));
                    assert forall|a: i64| #![trigger next[a]] next.contains_key(a) implies {
                        &&& next[a].len() > 0
                        &&& next[a].no_duplicates()
                        &&& forall|t: int| 0 <= t < next[a].len() ==> is_journal_id(journals@, #[trigger] next[a][t])
                    } by {
                        if a == attachment_id {
                            assert forall|t: int| 0 <= t < next[a].len() implies is_journal_id(journals@, #[trigger] next[a][t]) by {
                                if t < index@[a].len() {
                                    assert(next[a][t] == index@[a][t]);
                                }
                            }
                        }
                    }
                }
            } else {
                proof {
                    assert(next == index@);
                }
            }
        } else {
            proof {
                assert(!index@.contains_key(attachment_id)) by {
                    if index@.contains_key(attachment_id) {
                        let i = choose|i: int|
                            0 <= i < self.attachment_ids@.len() && self.attachment_ids@[i]
                                == attachment_id;
                        if i >= pos {
                            assert(self.attachment_ids@[pos as int] <= self.attachment_ids@[i]);
                        }
                    }
                }
            }
            let ghost before_ids = self.attachment_ids@;
            let ghost before_lists = self.journal_ids@;
            self.attachment_ids.insert(pos, attachment_id);
            let mut fresh: Vec<i64> = Vec::new();
            fresh.push(journal_id);
            assert(fresh@ =~= seq![journal_id]);
            self.journal_ids.insert(pos, fresh);
            proof {
                assert forall|i: int, j: int|
                    0 <= i < j < self.attachment_ids@.len() implies self.attachment_ids@[i]
                    < self.attachment_ids@[j] by {
                    if j < pos {
                    } else if j == pos {
                    } else if i < pos {
                        assert(self.attachment_ids@[j] == before_ids[j - 1]);
                        assert(before_ids[pos as int] <= before_ids[j - 1]);
                    } else if i == pos {
                        assert(self.attachment_ids@[j] == before_ids[j - 1]);
                        assert(before_ids[pos as int] <= before_ids[j - 1]);
                    } else {
                        assert(self.attachment_ids@[j] == before_ids[j - 1]);
                        assert(self.attachment_ids@[i] == before_ids[i - 1]);
                    }
                }
                assert forall|i: int| 0 <= i < self.attachment_ids@.len() implies next.contains_key(
                    #[trigger] self.attachment_ids@[i],
                ) && next[self.attachment_ids@[i]] == self.journal_ids@[i]@ by {
                    if i < pos {
                        assert(self.attachment_ids@[i] == before_ids[i]);
                        assert(self.journal_ids@[i] == before_lists[i]);
                    } else if i > pos {
                        assert(self.attachment_ids@[i] == before_ids[i - 1]);
                        assert(self.journal_ids@[i] == before_lists[i - 1]);
                    }
                }
                assert forall|a: i64| next.contains_key(a) implies self.attachment_ids@.contains(a) by {
                    if a == attachment_id {
                        assert(self.attachment_ids@[pos as int] == a);
                    } else {
                        let i = choose|i: int|
                            0 <= i < before_ids.len() && before_ids[i] == a;
                        if i < pos {
                            assert(self.attachment_ids@[i] == a);
                        } else {
                            assert(self.attachment_ids@[i + 1] == a);
                        }
                    }
                }
                assert forall|a: i64| #![trigger next[a]] next.contains_key(a) implies {
                    &&& next[a].len() > 0
                    &&& next[a].no_duplicates()
                    &&& forall|t: int| 0 <= t < next[a].len() ==> is_journal_id(journals@, #[trigger] next[a][t])
                } by {
                    if a == attachment_id {
                        assert forall|t: int| 0 <= t < next[a].len() implies is_journal_id(journals@, #[trigger] next[a][t]) by {
                            assert(t == 0);
                        }
                    }
                }
            }
        }
    }
}

fn is_attachment_detail_exec(d: &RedmineJournalDetail) -> (r: bool)
    ensures
        r == is_attachment_detail(*d),
{
    crate::text::seq_equal(&chars_of(d.property.as_str()), &chars_of("attachment"))
}

/// For each attachment named in a journal detail, the journals that name it.
pub fn index_attachment_journal_candidates(journals: &[RedmineJournal]) -> (r: Result<
    CandidateIndex,
    ImportError,
>)
    ensures
        match attachment_journal_candidates(journals@) {
            Err(e) => r matches Err(f) && f == e,
            Ok(index) => r matches Ok(ix) && ix.holds(index) && candidates_well_formed(
                index,
                journals@,
            ),
        },
{
    let mut ix = CandidateIndex { attachment_ids: Vec::new(), journal_ids: Vec::new() };
    let ghost mut index: Map<i64, Seq<i64>> = Map::empty();
    let mut n: usize = 0;
    assert(journals@.subrange(0, journals@.len() as int) =~= journals@);
    while n < journals.len()
        invariant
            n <= journals@.len(),
            ix.holds(index),
            candidates_well_formed(index, journals@),
            attachment_journal_candidates(journals@) == index_journals(
                index,
                journals@.subrange(n as int, journals@.len() as int),
            ),
        decreases journals@.len() - n,
    {
        let journal = &journals[n];
        let ghost rest = journals@.subrange(n as int, journals@.len() as int);
        assert(rest[0] == *journal);
        assert(rest.drop_first() =~= journals@.subrange(n + 1, journals@.len() as int));
        if journal.id <= 0 {
            return Err(ImportError::InvalidJournalId { journal_id: journal.id });
        }
        let ghost at_journal = index;
        let mut k: usize = 0;
        assert(journal.details@.subrange(0, journal.details@.len() as int) =~= journal.details@);
        while k < journal.details.len()
            invariant
                n < journals@.len(),
                *journal == journals@[n as int],
                journal.id > 0,
                k <= journal.details@.len(),
                ix.holds(index),
                candidates_well_formed(index, journals@),
                index_details(at_journal, journal.id, journal.details@) == index_details(
                    index,
                    journal.id,
                    journal.details@.subrange(k as int, journal.details@.len() as int),
                ),
                attachment_journal_candidates(journals@) == index_journals(
                    at_journal,
                    journals@.subrange(n as int, journals@.len() as int),
                ),
            decreases journal.details@.len() - k,
        {
            let detail = &journal.details[k];
            let ghost drest = journal.details@.subrange(k as int, journal.details@.len() as int);
            assert(drest[0] == *detail);
            assert(drest.drop_first() =~= journal.details@.subrange(
                k + 1,
                journal.details@.len() as int,
            ));
            if is_attachment_detail_exec(detail) {
                match parse_i64_exec(&chars_of(detail.name.as_str())) {
                    None => {
                        return Err(
                            ImportError::AttachmentDetailNotAnId {
                                journal_id: journal.id,
                                name: detail.name.clone(),
                            },
                        );
                    },
                    Some(attachment_id) => {
                        if attachment_id <= 0 {
                            return Err(
                                ImportError::InvalidAttachmentIdInJournal {
                                    journal_id: journal.id,
                                    attachment_id,
                                },
                            );
                        }
                        assert(journals@[n as int].id == journal.id);
                        ix.add(attachment_id, journal.id, Ghost(index), Ghost(journals@));
                        proof {
                            index = add_candidate(index, attachment_id, journal.id);
                        }
                    },
                }
            }
            k = k + 1;
        }
        n = n + 1;
    }
    Ok(ix)
}

/// The single journal of each attachment when no attachment appears in
/// several journals; otherwise the attachment with the smallest ID among
/// those that do, with its first two journals.
pub open spec fn single_journal_index(index: Map<i64, Seq<i64>>) -> bool {
    forall|a: i64| #[trigger] index.contains_key(a) ==> index[a].len() == 1
}

/// `e` reports the attachment with the smallest ID among those that appear
/// in several journals, with its first two journals.
pub open spec fn reports_shared_attachment(index: Map<i64, Seq<i64>>, e: ImportError) -> bool {
    e matches ImportError::AttachmentInSeveralJournals {
        attachment_id,
        first_journal_id,
        second_journal_id,
    } && index.contains_key(attachment_id) && index[attachment_id].len() > 1 && first_journal_id
        == index[attachment_id][0] && second_journal_id == index[attachment_id][1] && forall|a: i64|
        #![trigger index[a]]
        index.contains_key(a) && a < attachment_id ==> index[a].len() == 1
}

/// The candidate index when no attachment appears in several journals.
pub fn single_journal_candidates(journals: &[RedmineJournal]) -> (r: Result<
    CandidateIndex,
    ImportError,
>)
    ensures
        match attachment_journal_candidates(journals@) {
            Err(e) => r matches Err(f) && f == e,
            Ok(index) => {
                &&& r is Ok <==> single_journal_index(index)
                &&& r matches Ok(ix) ==> ix.holds(index) && candidates_well_formed(index, journals@)
                &&& r matches Err(e) ==> reports_shared_attachment(index, e)
            },
        },
{
    let ix = match index_attachment_journal_candidates(journals) {
        Err(e) => return Err(e),
        Ok(ix) => ix,
    };
    let ghost index = attachment_journal_candidates(journals@)->Ok_0;
    let mut i: usize = 0;
    assert(attachment_journal_candidates(journals@) == Ok::<Map<i64, Seq<i64>>, ImportError>(index));
    while i < ix.attachment_ids.len()
        invariant
            attachment_journal_candidates(journals@) == Ok::<Map<i64, Seq<i64>>, ImportError>(index),
            ix.holds(index),
            candidates_well_formed(index, journals@),
            i <= ix.attachment_ids@.len(),
            forall|t: int| 0 <= t < i ==> #[trigger] ix.journal_ids@[t]@.len() == 1,
        decreases ix.attachment_ids@.len() - i,
    {
        let attachment_id = ix.attachment_ids[i];
        let listed = &ix.journal_ids[i];
        assert(index.contains_key(attachment_id) && index[attachment_id] == listed@);
        if listed.len() > 1 {
            proof {
                assert(!single_journal_index(index));
                assert forall|a: i64| #![trigger index[a]] index.contains_key(a) && a
                    < attachment_id implies index[a].len() == 1 by {
                    let t = choose|t: int|
                        0 <= t < ix.attachment_ids@.len() && ix.attachment_ids@[t] == a;
                    if t >= i {
                        assert(ix.attachment_ids@[i as int] <= ix.attachment_ids@[t]);
                    }
                    assert(ix.journal_ids@[t]@.len() == 1);
                }
            }
            return Err(
                ImportError::AttachmentInSeveralJournals {
                    attachment_id,
                    first_journal_id: listed[0],
                    second_journal_id: listed[1],
                },
            );
        }
        i = i + 1;
    }
    proof {
        assert forall|a: i64| #[trigger] index.contains_key(a) implies index[a].len() == 1 by {
            let t = choose|t: int| 0 <= t < ix.attachment_ids@.len() && ix.attachment_ids@[t] == a;
            assert(ix.journal_ids@[t]@.len() == 1);
        }
    }
    Ok(ix)
}

/// The journal of each attachment, taken from a single-journal index.
pub open spec fn first_journals(index: Map<i64, Seq<i64>>) -> Map<i64, i64> {
    Map::new(|a: i64| index.contains_key(a), |a: i64| index[a][0])
}

/// The journal of each attachment, from the journals' attachment details:
/// refused when a detail is malformed or an attachment appears in several
/// journals (then for the smallest such attachment ID).
pub fn index_attachment_journals(journals: &[RedmineJournal]) -> (r: Result<
    BTreeMap<i64, i64>,
    ImportError,
>)
    ensures
        match attachment_journal_candidates(journals@) {
            Err(e) => r matches Err(f) && f == e,
            Ok(index) => {
                &&& r is Ok <==> single_journal_index(index)
                &&& r matches Ok(m) ==> m@ == first_journals(index)
                &&& r matches Err(e) ==> reports_shared_attachment(index, e)
            },
        },
{
    let ix = match single_journal_candidates(journals) {
        Err(e) => return Err(e),
        Ok(ix) => ix,
    };
    let ghost index = attachment_journal_candidates(journals@)->Ok_0;
    let mut map: BTreeMap<i64, i64> = BTreeMap::new();
    let mut i: usize = 0;
    while i < ix.attachment_ids.len()
        invariant
            ix.holds(index),
            candidates_well_formed(index, journals@),
            i <= ix.attachment_ids@.len(),
            map@ == Map::new(
                |a: i64| ix.attachment_ids@.subrange(0, i as int).contains(a),
                |a: i64| index[a][0],
            ),
        decreases ix.attachment_ids@.len() - i,
    {
        let attachment_id = ix.attachment_ids[i];
        let listed = &ix.journal_ids[i];
        assert(index.contains_key(attachment_id) && index[attachment_id] == listed@);
        let first = listed[0];
        map.insert(attachment_id, first);
        proof {
            let sub0 = ix.attachment_ids@.subrange(0, i as int);
            let sub1 = ix.attachment_ids@.subrange(0, i + 1);
            assert forall|a: i64| sub1.contains(a) <==> (sub0.contains(a) || a == attachment_id) by {
                if sub1.contains(a) {
                    let t = choose|t: int| 0 <= t < sub1.len() && sub1[t] == a;
                    if t < i {
                        assert(sub0[t] == a);
                    }
                }
                if sub0.contains(a) {
                    let t = choose|t: int| 0 <= t < sub0.len() && sub0[t] == a;
                    assert(sub1[t] == a);
                }
                if a == attachment_id {
                    assert(sub1[i as int] == a);
                }
            }
            assert(map@ =~= Map::new(
                |a: i64| ix.attachment_ids@.subrange(0, i + 1).contains(a),
                |a: i64| index[a][0],
            ));
        }
        i = i + 1;
    }
    proof {
        assert(ix.attachment_ids@.subrange(0, i as int) =~= ix.attachment_ids@);
        assert(map@ =~= first_journals(index));
    }
    Ok(map)
}

/// Detail `d` of `details` records attachment `a`.
pub open spec fn detail_names(details: Seq<RedmineJournalDetail>, d: int, a: i64) -> bool {
    0 <= d < details.len() && is_attachment_detail(details[d]) && parse_i64(details[d].name@)
        == Some(a as int)
}

/// Detail `d` of journal `j` records attachment `a`.
pub open spec fn journal_names(journals: Seq<RedmineJournal>, j: int, d: int, a: i64) -> bool {
    0 <= j < journals.len() && detail_names(journals[j].details@, d, a)
}

/// The detail's name is a positive integer.
pub open spec fn names_positive_id(d: RedmineJournalDetail) -> bool {
    parse_i64(d.name@) matches Some(a) && a > 0
}

/// Every attachment detail names a positive attachment ID.
pub open spec fn details_are_valid(details: Seq<RedmineJournalDetail>) -> bool {
    forall|d: int|
        0 <= d < details.len() && is_attachment_detail(#[trigger] details[d]) ==> names_positive_id(
            details[d],
        )
}

/// Every journal ID is positive, and every attachment detail names a
/// positive attachment ID.
pub open spec fn journals_are_valid(journals: Seq<RedmineJournal>) -> bool {
    forall|j: int|
        0 <= j < journals.len() ==> (#[trigger] journals[j]).id > 0 && details_are_valid(
            journals[j].details@,
        )
}

/// Some attachment is named by two journals with different IDs.
pub open spec fn attachment_in_two_journals(journals: Seq<RedmineJournal>) -> bool {
    exists|j1: int, d1: int, j2: int, d2: int, a: i64|
        #[trigger] journal_names(journals, j1, d1, a) && #[trigger] journal_names(journals, j2, d2, a)
            && journals[j1].id != journals[j2].id
}

/// Every entry lists at least one journal, none twice.
pub open spec fn lists_are_sets(index: Map<i64, Seq<i64>>) -> bool {
    forall|a: i64| #[trigger] index.contains_key(a) ==> index[a].len() > 0 && index[a].no_duplicates()
}

proof fn lemma_index_details(
    index: Map<i64, Seq<i64>>,
    journal_id: i64,
    details: Seq<RedmineJournalDetail>,
)
    requires
        lists_are_sets(index),
    ensures
        index_details(index, journal_id, details) is Ok <==> details_are_valid(details),
        index_details(index, journal_id, details) matches Ok(next) ==> {
            &&& lists_are_sets(next)
            &&& forall|a: i64|
                #[trigger] next.contains_key(a) <==> index.contains_key(a) || exists|d: int|
                    detail_names(details, d, a)
            &&& forall|a: i64, x: i64|
                #[trigger] next.contains_key(a) ==> (#[trigger] next[a].contains(x) <==> (
                index.contains_key(a) && index[a].contains(x)) || (x == journal_id && exists|d: int|
                    detail_names(details, d, a)))
        },
    decreases details.len(),
{
    if details.len() > 0 {
        let d0 = details[0];
        let rest = details.drop_first();
        assert forall|d: int| 0 <= d < rest.len() implies rest[d] == details[d + 1] by {}
        assert(details_are_valid(details) <==> (
            (is_attachment_detail(d0) ==> names_positive_id(d0))
            && details_are_valid(rest))) by {
            if details_are_valid(rest) && (is_attachment_detail(d0) ==> names_positive_id(d0)) {
                assert forall|d: int|
                    0 <= d < details.len() && is_attachment_detail(#[trigger] details[d]) implies names_positive_id(
                    details[d]) by {
                    if d > 0 {
                        assert(details[d] == rest[d - 1]);
                    }
                }
            }
            if details_are_valid(details) {
                assert forall|d: int|
                    0 <= d < rest.len() && is_attachment_detail(#[trigger] rest[d]) implies names_positive_id(
                    rest[d]) by {
                    assert(rest[d] == details[d + 1]);
                }
            }
        }
        let step = if !is_attachment_detail(d0) {
            Some(index)
        } else {
            match parse_i64(d0.name@) {
                None => None,
                Some(v) => if v <= 0 {
                    None
                } else {
                    Some(add_candidate(index, v as i64, journal_id))
                },
            }
        };
        if let Some(mid) = step {
            if is_attachment_detail(d0) {
                let v = parse_i64(d0.name@)->Some_0;
                assert(i64::MIN <= v <= i64::MAX);
                assert((v as i64) as int == v);
                assert(detail_names(details, 0, v as i64));
            }
            assert(lists_are_sets(mid)) by {
                if is_attachment_detail(d0) {
                    let v = parse_i64(d0.name@)->Some_0 as i64;
                    assert forall|a: i64| #[trigger] mid.contains_key(a) implies mid[a].len() > 0
                        && mid[a].no_duplicates() by {
                        if a == v && index.contains_key(a) && !index[a].contains(journal_id) {
                            let l = index[a];
                            assert forall|i: int, j: int|
                                0 <= i < l.push(journal_id).len() && 0 <= j < l.push(journal_id).len()
                                    && i != j implies l.push(journal_id)[i] != l.push(journal_id)[j] by {
                                if i < l.len() && j < l.len() {
                                } else if i < l.len() {
                                    assert(l.contains(l[i]));
                                } else {
                                    assert(l.contains(l[j]));
                                }
                            }
                        }
                    }
                }
            }
            lemma_index_details(mid, journal_id, rest);
            if let Ok(next) = index_details(index, journal_id, details) {
                assert(index_details(mid, journal_id, rest) == Ok::<Map<i64, Seq<i64>>, ImportError>(
                    next,
                ));
                assert forall|a: i64| #[trigger] next.contains_key(a) <==> index.contains_key(a)
                    || exists|d: int| detail_names(details, d, a) by {
                    if exists|d: int| detail_names(rest, d, a) {
                        let d = choose|d: int| detail_names(rest, d, a);
                        assert(detail_names(details, d + 1, a));
                    }
                    if exists|d: int| detail_names(details, d, a) {
                        let d = choose|d: int| detail_names(details, d, a);
                        if d > 0 {
                            assert(detail_names(rest, d - 1, a));
                        }
                    }
                }
                assert forall|a: i64, x: i64| #[trigger] next.contains_key(a) implies (
                #[trigger] next[a].contains(x) <==> (index.contains_key(a) && index[a].contains(x))
                    || (x == journal_id && exists|d: int| detail_names(details, d, a))) by {
                    if exists|d: int| detail_names(rest, d, a) {
                        let d = choose|d: int| detail_names(rest, d, a);
                        assert(detail_names(details, d + 1, a));
                    }
                    if exists|d: int| detail_names(details, d, a) {
                        let d = choose|d: int| detail_names(details, d, a);
                        if d > 0 {
                            assert(detail_names(rest, d - 1, a));
                        }
                    }
                    if mid.contains_key(a) && mid[a].contains(x) && !(index.contains_key(a)
                        && index[a].contains(x)) {
                        let v = parse_i64(d0.name@)->Some_0 as i64;
                        assert(a == v);
                        if index.contains_key(a) {
                            assert(mid[a] == index[a].push(journal_id));
                            let t = choose|t: int| 0 <= t < mid[a].len() && mid[a][t] == x;
                            if t < index[a].len() {
                                assert(index[a][t] == x);
                            }
                        } else {
                            assert(mid[a] == seq![journal_id]);
                            assert(mid[a][0] == x);
                        }
                        assert(x == journal_id);
                        assert(detail_names(details, 0, a));
                    }
                    if index.contains_key(a) && index[a].contains(x) {
                        assert(mid.contains_key(a));
                        let t = choose|t: int| 0 <= t < index[a].len() && index[a][t] == x;
                        if mid[a] != index[a] {
                            assert(mid[a][t] == x);
                        }
                        assert(mid[a].contains(x));
                    }
                    if x == journal_id && detail_names(details, 0, a) {
                        assert(mid.contains_key(a));
                        if mid[a] == seq![journal_id] {
                            assert(mid[a][0] == x);
                        } else if index.contains_key(a) && index[a].contains(x) {
                        } else {
                            assert(mid[a] == index[a].push(journal_id));
                            assert(mid[a][index[a].len() as int] == x);
                        }
                        assert(mid[a].contains(x));
                    }
                }
            }
        } else {
            assert(!details_are_valid(details));
        }
    }
}

proof fn lemma_index_journals(index: Map<i64, Seq<i64>>, journals: Seq<RedmineJournal>)
    requires
        lists_are_sets(index),
    ensures
        index_journals(index, journals) is Ok <==> journals_are_valid(journals),
        index_journals(index, journals) matches Ok(next) ==> {
            &&& lists_are_sets(next)
            &&& forall|a: i64|
                #[trigger] next.contains_key(a) <==> index.contains_key(a) || exists|j: int, d: int|
                    journal_names(journals, j, d, a)
            &&& forall|a: i64, x: i64|
                #[trigger] next.contains_key(a) ==> (#[trigger] next[a].contains(x) <==> (
                index.contains_key(a) && index[a].contains(x)) || exists|j: int, d: int|
                    journal_names(journals, j, d, a) && journals[j].id == x)
        },
    decreases journals.len(),
{
    if journals.len() > 0 {
        let j0 = journals[0];
        let rest = journals.drop_first();
        assert forall|j: int| 0 <= j < rest.len() implies rest[j] == journals[j + 1] by {}
        assert(journals_are_valid(journals) <==> (j0.id > 0 && details_are_valid(j0.details@)
            && journals_are_valid(rest))) by {
            if j0.id > 0 && details_are_valid(j0.details@) && journals_are_valid(rest) {
                assert forall|j: int| 0 <= j < journals.len() implies (#[trigger] journals[j]).id > 0
                    && details_are_valid(journals[j].details@) by {
                    if j > 0 {
                        assert(journals[j] == rest[j - 1]);
                    }
                }
            }
            if journals_are_valid(journals) {
                assert(journals[0] == j0);
                assert forall|j: int| 0 <= j < rest.len() implies (#[trigger] rest[j]).id > 0
                    && details_are_valid(rest[j].details@) by {
                    assert(rest[j] == journals[j + 1]);
                }
            }
        }
        if j0.id > 0 {
            lemma_index_details(index, j0.id, j0.details@);
            if let Ok(mid) = index_details(index, j0.id, j0.details@) {
                lemma_index_journals(mid, rest);
                if let Ok(next) = index_journals(index, journals) {
                    assert(index_journals(mid, rest) == Ok::<Map<i64, Seq<i64>>, ImportError>(next));
                    assert forall|a: i64| #[trigger] next.contains_key(a) <==> index.contains_key(a)
                        || exists|j: int, d: int| journal_names(journals, j, d, a) by {
                        if exists|d: int| detail_names(j0.details@, d, a) {
                            let d = choose|d: int| detail_names(j0.details@, d, a);
                            assert(journal_names(journals, 0, d, a));
                        }
                        if exists|j: int, d: int| journal_names(rest, j, d, a) {
                            let (j, d) = choose|j: int, d: int| journal_names(rest, j, d, a);
                            assert(journal_names(journals, j + 1, d, a));
                        }
                        if exists|j: int, d: int| journal_names(journals, j, d, a) {
                            let (j, d) = choose|j: int, d: int| journal_names(journals, j, d, a);
                            if j > 0 {
                                assert(journal_names(rest, j - 1, d, a));
                            } else {
                                assert(detail_names(j0.details@, d, a));
                            }
                        }
                    }
                    assert forall|a: i64, x: i64| #[trigger] next.contains_key(a) implies (
                    #[trigger] next[a].contains(x) <==> (index.contains_key(a) && index[a].contains(
                        x,
                    )) || exists|j: int, d: int| journal_names(journals, j, d, a) && journals[j].id
                        == x) by {
                        if exists|d: int| detail_names(j0.details@, d, a) {
                            let d = choose|d: int| detail_names(j0.details@, d, a);
                            assert(journal_names(journals, 0, d, a));
                        }
                        if exists|j: int, d: int| journal_names(rest, j, d, a) && rest[j].id == x {
                            let (j, d) = choose|j: int, d: int|
                                journal_names(rest, j, d, a) && rest[j].id == x;
                            assert(journal_names(journals, j + 1, d, a));
                        }
                        if exists|j: int, d: int| journal_names(journals, j, d, a) && journals[j].id
                            == x {
                            let (j, d) = choose|j: int, d: int|
                                journal_names(journals, j, d, a) && journals[j].id == x;
                            if j > 0 {
                                assert(journal_names(rest, j - 1, d, a));
                            } else {
                                assert(detail_names(j0.details@, d, a));
                            }
                        }
                    }
                }
            }
        }
    }
}

/// The journal index is built: the input is valid and no attachment has
/// two journals.
pub open spec fn journal_index_built(journals: Seq<RedmineJournal>) -> bool {
    attachment_journal_candidates(journals) matches Ok(index) && single_journal_index(index)
}

/// The journal of each attachment is found exactly when every journal ID is
/// positive, every attachment detail names a positive ID, and no attachment
/// is named by two journals with different IDs. Then every named attachment
/// maps to the journal that names it, and nothing else is in the map.
pub proof fn lemma_journal_index_built_iff(journals: Seq<RedmineJournal>)
    ensures
        journal_index_built(journals) <==> journals_are_valid(journals)
            && !attachment_in_two_journals(journals),
        journal_index_built(journals) ==> {
            let m = first_journals(attachment_journal_candidates(journals)->Ok_0);
            &&& forall|a: i64|
                #[trigger] m.contains_key(a) <==> exists|j: int, d: int| journal_names(journals, j, d, a)
            &&& forall|j: int, d: int, a: i64|
                #[trigger] journal_names(journals, j, d, a) ==> m[a] == journals[j].id
        },
{
    let empty = Map::<i64, Seq<i64>>::empty();
    lemma_index_journals(empty, journals);
    if let Ok(index) = attachment_journal_candidates(journals) {
        let m = first_journals(index);
        if attachment_in_two_journals(journals) {
            let (j1, d1, j2, d2, a) = choose|j1: int, d1: int, j2: int, d2: int, a: i64|
                #[trigger] journal_names(journals, j1, d1, a) && #[trigger] journal_names(
                    journals,
                    j2,
                    d2,
                    a,
                ) && journals[j1].id != journals[j2].id;
            assert(index.contains_key(a));
            assert(index[a].contains(journals[j1].id));
            assert(index[a].contains(journals[j2].id));
            if index[a].len() == 1 {
                let t1 = choose|t: int| 0 <= t < index[a].len() && index[a][t] == journals[j1].id;
                let t2 = choose|t: int| 0 <= t < index[a].len() && index[a][t] == journals[j2].id;
                assert(t1 == 0 && t2 == 0);
            }
            assert(!single_journal_index(index));
        } else {
            assert forall|a: i64| #[trigger] index.contains_key(a) implies index[a].len() == 1 by {
                if index[a].len() != 1 {
                    assert(index[a].len() >= 2);
                    assert(index[a][0] != index[a][1]);
                    assert(index[a].contains(index[a][0]));
                    assert(index[a].contains(index[a][1]));
                    let (j1, d1) = choose|j: int, d: int|
                        journal_names(journals, j, d, a) && journals[j].id == index[a][0];
                    let (j2, d2) = choose|j: int, d: int|
                        journal_names(journals, j, d, a) && journals[j].id == index[a][1];
                    assert(attachment_in_two_journals(journals));
                }
            }
        }
        if single_journal_index(index) {
            assert forall|j: int, d: int, a: i64| #[trigger] journal_names(journals, j, d, a) implies m[a]
                == journals[j].id by {
                assert(index.contains_key(a));
                assert(index[a].contains(journals[j].id));
                let t = choose|t: int| 0 <= t < index[a].len() && index[a][t] == journals[j].id;
                assert(t == 0);
            }
        }
    }
}

/// The candidate index is built exactly when every journal ID is positive
/// and every attachment detail names a positive ID. It then holds exactly
/// the named attachments, each with the IDs of the journals that name it,
/// each ID once.
pub proof fn lemma_candidates_contents(journals: Seq<RedmineJournal>)
    ensures
        attachment_journal_candidates(journals) is Ok <==> journals_are_valid(journals),
        attachment_journal_candidates(journals) matches Ok(index) ==> {
            &&& lists_are_sets(index)
            &&& forall|a: i64|
                #[trigger] index.contains_key(a) <==> exists|j: int, d: int|
                    journal_names(journals, j, d, a)
            &&& forall|a: i64, x: i64|
                #[trigger] index.contains_key(a) ==> (#[trigger] index[a].contains(x) <==> exists|
                    j: int,
                    d: int,
                | journal_names(journals, j, d, a) && journals[j].id == x)
        },
{
    lemma_index_journals(Map::empty(), journals);
}

} // verus!
