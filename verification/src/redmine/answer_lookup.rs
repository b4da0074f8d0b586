//! Finding the portal answer that an imported Redmine issue became, page by
//! page through a form's answers: exactly one answer may carry the issue.

use vstd::prelude::*;

use crate::redmine::model::ImportError;

verus! {

/// An answer of the portal's answer list, as far as the lookup reads it.
#[derive(Debug, Clone, Copy, PartialEq, Eq, Structural)]
pub struct PortalAnswer {
    pub id: u128,
    pub redmine_issue_id: Option<i64>,
}

/// The IDs of the answers that carry the issue, in list order.
pub open spec fn matching_ids(items: Seq<PortalAnswer>, issue_id: i64) -> Seq<u128>
    decreases items.len(),
{
    if items.len() == 0 {
        Seq::empty()
    } else {
        let here: Seq<u128> = if items[0].redmine_issue_id == Some(issue_id) {
            seq![items[0].id]
        } else {
            Seq::empty()
        };
        here + matching_ids(items.drop_first(), issue_id)
    }
}

/// The answer found so far, after more answers were read: a second answer
/// for the issue is refused.
pub open spec fn found_after(found: Option<u128>, matches: Seq<u128>, issue_id: i64) -> Result<
    Option<u128>,
    ImportError,
> {
    if matches.len() == 0 {
        Ok(found)
    } else if found is None && matches.len() == 1 {
        Ok(Some(matches[0]))
    } else {
        Err(ImportError::SeveralAnswersForIssue { issue_id })
    }
}

proof fn lemma_found_after_concat(found: Option<u128>, a: Seq<u128>, b: Seq<u128>, issue_id: i64)
    ensures
        found_after(found, a + b, issue_id) == match found_after(found, a, issue_id) {
            Ok(f) => found_after(f, b, issue_id),
            Err(e) => Err(e),
        },
{
    if a.len() == 0 {
        assert(a + b =~= b);
    } else if a.len() == 1 && b.len() == 0 {
        assert(a + b =~= a);
    }
}

proof fn lemma_matching_prefix(items: Seq<PortalAnswer>, i: int, issue_id: i64)
    requires
        0 <= i < items.len(),
    ensures
        matching_ids(items.subrange(0, i + 1), issue_id) == matching_ids(items.subrange(0, i), issue_id)
            + (if items[i].redmine_issue_id == Some(issue_id) {
            seq![items[i].id]
        } else {
            Seq::<u128>::empty()
        }),
{
    assert(items.subrange(0, i + 1) =~= items.subrange(0, i) + seq![items[i]]);
    lemma_matching_concat(items.subrange(0, i), seq![items[i]], issue_id);
    assert(seq![items[i]].drop_first() =~= Seq::<PortalAnswer>::empty());
    assert(matching_ids(Seq::<PortalAnswer>::empty(), issue_id) =~= Seq::<u128>::empty());
    assert(seq![items[i]][0] == items[i]);
    let here: Seq<u128> = if items[i].redmine_issue_id == Some(issue_id) {
        seq![items[i].id]
    } else {
        Seq::<u128>::empty()
    };
    assert(here + Seq::<u128>::empty() =~= here);
}

/// The search for the answer of one Redmine issue.
#[derive(Debug)]
pub struct AnswerLookup {
    pub redmine_issue_id: i64,
    pub found: Option<u128>,
}

impl AnswerLookup {
    /// The answer found so far.
    pub open spec fn found(&self) -> Option<u128> {
        self.found
    }

    pub fn new(redmine_issue_id: i64) -> (l: Self)
        ensures
            l.redmine_issue_id == redmine_issue_id,
            l.found() is None,
    {
        AnswerLookup { redmine_issue_id, found: None }
    }

    /// Reads one page of answers.
    pub fn accept_page(&mut self, items: &[PortalAnswer]) -> (r: Result<(), ImportError>)
        ensures
            final(self).redmine_issue_id == old(self).redmine_issue_id,
            match found_after(
                old(self).found(),
                matching_ids(items@, old(self).redmine_issue_id),
                old(self).redmine_issue_id,
            ) {
                Ok(f) => r is Ok && final(self).found() == f,
                Err(e) => r == Err::<(), ImportError>(e),
            },
    {
        let issue_id = self.redmine_issue_id;
        let ghost start = self.found;
        let ghost all = matching_ids(items@, issue_id);
        let mut i: usize = 0;
        assert(items@.subrange(0, 0) =~= Seq::<PortalAnswer>::empty());
        assert(Seq::<u128>::empty() + Seq::<u128>::empty() =~= Seq::<u128>::empty());
        while i < items.len()
            invariant
                i <= items@.len(),
                self.redmine_issue_id == issue_id,
                issue_id == old(self).redmine_issue_id,
                start == old(self).found,
                all == matching_ids(items@, issue_id),
                found_after(start, matching_ids(items@.subrange(0, i as int), issue_id), issue_id)
                    == Ok::<Option<u128>, ImportError>(self.found),
            decreases items@.len() - i,
        {
            proof {
                lemma_matching_prefix(items@, i as int, issue_id);
            }
            let item = items[i];
            if item.redmine_issue_id == Some(issue_id) {
                if self.found.is_some() {
                    proof {
                        let before = matching_ids(items@.subrange(0, i as int), issue_id);
                        let upto = matching_ids(items@.subrange(0, i + 1), issue_id);
                        lemma_found_after_concat(start, before, seq![item.id], issue_id);
                        assert(items@ =~= items@.subrange(0, i + 1) + items@.subrange(
                            i + 1,
                            items@.len() as int,
                        ));
                        lemma_matching_concat(
                            items@.subrange(0, i + 1),
                            items@.subrange(i + 1, items@.len() as int),
                            issue_id,
                        );
                        lemma_found_after_concat(
                            start,
                            upto,
                            matching_ids(items@.subrange(i + 1, items@.len() as int), issue_id),
                            issue_id,
                        );
                    }
                    return Err(ImportError::SeveralAnswersForIssue { issue_id });
                }
                proof {
                    lemma_found_after_concat(
                        start,
                        matching_ids(items@.subrange(0, i as int), issue_id),
                        seq![item.id],
                        issue_id,
                    );
                }
                self.found = Some(item.id);
            } else {
                proof {
                    let before = matching_ids(items@.subrange(0, i as int), issue_id);
                    assert(before + Seq::<u128>::empty() =~= before);
                }
            }
            i = i + 1;
        }
        proof {
            assert(items@.subrange(0, i as int) =~= items@);
        }
        Ok(())
    }

    /// The answer of the issue, once every page is read.
    pub fn finish(self) -> (r: Result<u128, ImportError>)
        ensures
            match self.found() {
                Some(id) => r == Ok::<u128, ImportError>(id),
                None => r == Err::<u128, ImportError>(
                    ImportError::NoAnswerForIssue { issue_id: self.redmine_issue_id },
                ),
            },
    {
        match self.found {
            Some(id) => Ok(id),
            None => Err(ImportError::NoAnswerForIssue { issue_id: self.redmine_issue_id }),
        }
    }
}

/// Pages can be read in any split: reading two lists one after the other
/// finds what reading them as one list finds.
pub proof fn lemma_pages_compose(
    found: Option<u128>,
    first: Seq<PortalAnswer>,
    second: Seq<PortalAnswer>,
    issue_id: i64,
)
    ensures
        found_after(found, matching_ids(first + second, issue_id), issue_id) == match found_after(
            found,
            matching_ids(first, issue_id),
            issue_id,
        ) {
            Ok(f) => found_after(f, matching_ids(second, issue_id), issue_id),
            Err(e) => Err(e),
        },
{
    lemma_matching_concat(first, second, issue_id);
    lemma_found_after_concat(
        found,
        matching_ids(first, issue_id),
        matching_ids(second, issue_id),
        issue_id,
    );
}

proof fn lemma_matching_concat(a: Seq<PortalAnswer>, b: Seq<PortalAnswer>, issue_id: i64)
    ensures
        matching_ids(a + b, issue_id) == matching_ids(a, issue_id) + matching_ids(b, issue_id),
    decreases a.len(),
{
    if a.len() == 0 {
        assert(a + b =~= b);
        assert(matching_ids(a, issue_id) + matching_ids(b, issue_id) =~= matching_ids(b, issue_id));
    } else {
        assert((a + b).drop_first() =~= a.drop_first() + b);
        lemma_matching_concat(a.drop_first(), b, issue_id);
        assert((a + b)[0] == a[0]);
        let here: Seq<u128> = if a[0].redmine_issue_id == Some(issue_id) {
            seq![a[0].id]
        } else {
            Seq::empty()
        };
        assert(here + (matching_ids(a.drop_first(), issue_id) + matching_ids(b, issue_id)) =~= (here
            + matching_ids(a.drop_first(), issue_id)) + matching_ids(b, issue_id));
    }
}

/// The answer found after the whole list is the one answer that carries the
/// issue; none is found only where no answer carries it.
pub proof fn lemma_found_answer_is_the_only_match(items: Seq<PortalAnswer>, issue_id: i64)
    ensures
        found_after(None, matching_ids(items, issue_id), issue_id) == Ok::<
            Option<u128>,
            ImportError,
        >(None) <==> matching_ids(items, issue_id).len() == 0,
        forall|x: u128|
            found_after(None, matching_ids(items, issue_id), issue_id) == Ok::<
                Option<u128>,
                ImportError,
            >(Some(x)) <==> matching_ids(items, issue_id) == seq![x],
{
    let m = matching_ids(items, issue_id);
    assert forall|x: u128| found_after(None, m, issue_id) == Ok::<Option<u128>, ImportError>(Some(x)) <==> m == seq![x] by {
        if m == seq![x] {
            assert(m.len() == 1);
        }
        if found_after(None, m, issue_id) == Ok::<Option<u128>, ImportError>(Some(x)) {
            assert(m =~= seq![x]);
        }
    }
}

} // verus!
