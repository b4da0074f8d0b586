//! The decisions of an import run between fetching and writing: which
//! listed issues are imported, whether an issue's details agree with the
//! list, and which issue relations become answer relations.

use vstd::prelude::*;

use crate::lookup::{contains_id, position};
use crate::redmine::config::{
    excluded_tracker_table, excluded_trackers, table_ids, table_name, target_tracker_table,
    target_trackers, INQUIRY_TRACKER_ID,
};
use crate::redmine::inquiry::{
    classify_inquiry, inquiry_classification, optional_text, InquiryClassification,
};
use crate::redmine::model::{ImportError, IssueStub, RedmineIssue, RedmineIssueRelation};
use crate::text::{chars_of, string_of, text_equal};

verus! {

fn table_lookup(
    table: &Vec<(i64, &'static str)>,
    spec_table: Ghost<Seq<(i64, Seq<char>)>>,
    id: i64,
) -> (r: Option<&'static str>)
    requires
        table@.len() == spec_table@.len(),
        forall|i: int|
            0 <= i < table@.len() ==> table@[i].0 == spec_table@[i].0 && table@[i].1@
                == spec_table@[i].1,
    ensures
        match table_name(spec_table@, id) {
            Some(n) => r matches Some(s) && s@ == n,
            None => r is None,
        },
{
    let ghost ids = table_ids(spec_table@);
    let mut i: usize = 0;
    while i < table.len()
        invariant
            i <= table@.len(),
            table@.len() == spec_table@.len(),
            ids == table_ids(spec_table@),
            forall|k: int|
                0 <= k < table@.len() ==> table@[k].0 == spec_table@[k].0 && table@[k].1@
                    == spec_table@[k].1,
            position(ids, id) == crate::lookup::position_from(ids, id, i as int),
        decreases table@.len() - i,
    {
        if table[i].0 == id {
            return Some(table[i].1);
        }
        i = i + 1;
    }
    None
}

/// What becomes of an issue of the issue list.
#[derive(Debug, Clone, PartialEq, Eq)]
pub enum StubVerdict {
    /// It is imported.
    Import,
    /// Its tracker is deliberately left out.
    Excluded,
    /// Its tracker's name is not the one the tracker tables give.
    TrackerNameMismatch { expected: String },
    /// Its tracker is in neither table.
    UnknownTracker,
    /// Its ID is not positive.
    InvalidIssueId,
}

/// The verdict on an issue of the list, by its tracker and ID.
pub open spec fn stub_verdict(
    verdict: StubVerdict,
    tracker_id: i64,
    tracker_name: Seq<char>,
    issue_id: i64,
) -> bool {
    match table_name(excluded_tracker_table(), tracker_id) {
        Some(n) => if n != tracker_name {
            verdict matches StubVerdict::TrackerNameMismatch { expected } && expected@ == n
        } else {
            verdict == StubVerdict::Excluded
        },
        None => match table_name(target_tracker_table(), tracker_id) {
            None => verdict == StubVerdict::UnknownTracker,
            Some(n) => if n != tracker_name {
                verdict matches StubVerdict::TrackerNameMismatch { expected } && expected@ == n
            } else if issue_id <= 0 {
                verdict == StubVerdict::InvalidIssueId
            } else {
                verdict == StubVerdict::Import
            },
        },
    }
}

pub fn triage_stub(tracker_id: i64, tracker_name: &str, issue_id: i64) -> (r: StubVerdict)
    ensures
        stub_verdict(r, tracker_id, tracker_name@, issue_id),
{
    let excluded = excluded_trackers();
    match table_lookup(&excluded, Ghost(excluded_tracker_table()), tracker_id) {
        Some(expected) => {
            if text_equal(expected, tracker_name) {
                StubVerdict::Excluded
            } else {
                StubVerdict::TrackerNameMismatch { expected: string_of(&chars_of(expected)) }
            }
        },
        None => {
            let targets = target_trackers();
            match table_lookup(&targets, Ghost(target_tracker_table()), tracker_id) {
                None => StubVerdict::UnknownTracker,
                Some(expected) => {
                    if !text_equal(expected, tracker_name) {
                        StubVerdict::TrackerNameMismatch {
                            expected: string_of(&chars_of(expected)),
                        }
                    } else if issue_id <= 0 {
                        StubVerdict::InvalidIssueId
                    } else {
                        StubVerdict::Import
                    }
                },
            }
        },
    }
}

/// Where an issue's details disagree with the issue list.
#[derive(Debug, Clone, Copy, PartialEq, Eq, Structural)]
pub enum DetailMismatch {
    /// Its project is not the listed one, or not by the configured name.
    Project,
    /// Its tracker is not the listed one.
    Tracker,
}

pub open spec fn detail_mismatch(
    stub: IssueStub,
    issue: RedmineIssue,
    expected_project_name: Seq<char>,
) -> Option<DetailMismatch> {
    if issue.project.id != stub.project_id || issue.project.name@ != expected_project_name {
        Some(DetailMismatch::Project)
    } else if issue.tracker.id != stub.tracker_id || issue.tracker.name@ != stub.tracker_name@ {
        Some(DetailMismatch::Tracker)
    } else {
        None
    }
}

pub fn check_issue_detail(stub: &IssueStub, issue: &RedmineIssue, expected_project_name: &str) -> (r:
    Option<DetailMismatch>)
    ensures
        r == detail_mismatch(*stub, *issue, expected_project_name@),
{
    if issue.project.id != stub.project_id || !text_equal(
        issue.project.name.as_str(),
        expected_project_name,
    ) {
        Some(DetailMismatch::Project)
    } else if issue.tracker.id != stub.tracker_id || !text_equal(
        issue.tracker.name.as_str(),
        stub.tracker_name.as_str(),
    ) {
        Some(DetailMismatch::Tracker)
    } else {
        None
    }
}

/// The details fetched for an issue have to be that issue's.
pub fn check_fetched_issue_id(requested: i64, received: i64) -> (r: Result<(), ImportError>)
    ensures
        requested == received ==> r is Ok,
        requested != received ==> r == Err::<(), ImportError>(
            ImportError::IssueIdMismatch { requested, received },
        ),
{
    if requested != received {
        Err(ImportError::IssueIdMismatch { requested, received })
    } else {
        Ok(())
    }
}

/// How an issue of a tracker is classified: inquiries by their text, all
/// others as generic.
pub fn issue_classification(tracker_id: i64, subject: &str, description: Option<&str>) -> (r:
    InquiryClassification)
    ensures
        r == (if tracker_id == INQUIRY_TRACKER_ID {
            inquiry_classification(subject@, optional_text(description))
        } else {
            InquiryClassification::Generic
        }),
{
    if tracker_id == INQUIRY_TRACKER_ID {
        classify_inquiry(subject, description)
    } else {
        InquiryClassification::Generic
    }
}

/// Why a relation of the issue list does not become an answer relation.
#[derive(Debug, Clone, Copy, PartialEq, Eq, Structural)]
pub enum RelationNoteKind {
    /// An end is not an issue of an imported tracker (a warning).
    NotBetweenTargets,
    /// An end was not prepared for import (an error).
    EndpointNotPrepared,
    /// Another relation already joins the same two issues (a warning).
    DuplicatePair,
}

/// The tracker of an issue of the list: that of the last listing of it.
pub open spec fn tracker_of(stubs: Seq<IssueStub>, issue_id: i64) -> Option<i64>
    decreases stubs.len(),
{
    if stubs.len() == 0 {
        None
    } else if stubs.last().id == issue_id {
        Some(stubs.last().tracker_id)
    } else {
        tracker_of(stubs.drop_last(), issue_id)
    }
}

pub open spec fn targeted(tracker: Option<i64>) -> bool {
    tracker matches Some(t) && table_ids(target_tracker_table()).contains(t)
}

/// The two issues of a relation, the smaller ID first.
pub open spec fn endpoint_key(r: RedmineIssueRelation) -> (i64, i64) {
    if r.issue_id < r.issue_to_id {
        (r.issue_id, r.issue_to_id)
    } else {
        (r.issue_to_id, r.issue_id)
    }
}

/// The relations read in order: each becomes the pair of its issues, unless
/// an end is not of an imported tracker, an end was not prepared, or the
/// pair is already taken.
pub open spec fn relation_plan(
    stubs: Seq<IssueStub>,
    prepared: Seq<i64>,
    relations: Seq<RedmineIssueRelation>,
) -> (Seq<(i64, i64)>, Seq<(RelationNoteKind, RedmineIssueRelation)>)
    decreases relations.len(),
{
    if relations.len() == 0 {
        (Seq::empty(), Seq::empty())
    } else {
        let (pairs, notes) = relation_plan(stubs, prepared, relations.drop_last());
        let r = relations.last();
        if !targeted(tracker_of(stubs, r.issue_id)) || !targeted(tracker_of(stubs, r.issue_to_id)) {
            (pairs, notes.push((RelationNoteKind::NotBetweenTargets, r)))
        } else if !prepared.contains(r.issue_id) || !prepared.contains(r.issue_to_id) {
            (pairs, notes.push((RelationNoteKind::EndpointNotPrepared, r)))
        } else if pairs.contains(endpoint_key(r)) {
            (pairs, notes.push((RelationNoteKind::DuplicatePair, r)))
        } else {
            (pairs.push(endpoint_key(r)), notes)
        }
    }
}

/// The answer relations to write, and what became of the other relations.
#[derive(Debug)]
pub struct RelationPlan {
    pub pairs: Vec<(i64, i64)>,
    pub notes: Vec<(RelationNoteKind, RedmineIssueRelation)>,
}

fn listed_tracker(stubs: &[IssueStub], issue_id: i64) -> (r: Option<i64>)
    ensures
        r == tracker_of(stubs@, issue_id),
{
    let mut found: Option<i64> = None;
    let mut i: usize = 0;
    while i < stubs.len()
        invariant
            i <= stubs@.len(),
            found == tracker_of(stubs@.subrange(0, i as int), issue_id),
        decreases stubs@.len() - i,
    {
        assert(stubs@.subrange(0, i + 1).drop_last() =~= stubs@.subrange(0, i as int));
        if stubs[i].id == issue_id {
            found = Some(stubs[i].tracker_id);
        }
        i = i + 1;
    }
    assert(stubs@.subrange(0, i as int) =~= stubs@);
    found
}

fn is_targeted(tracker: Option<i64>) -> (r: bool)
    ensures
        r == targeted(tracker),
{
    match tracker {
        None => false,
        Some(t) => {
            proof {
                lemma_table_name_contains(target_tracker_table(), t);
            }
            let targets = target_trackers();
            table_lookup(&targets, Ghost(target_tracker_table()), t).is_some()
        },
    }
}

proof fn lemma_table_name_contains(table: Seq<(i64, Seq<char>)>, id: i64)
    ensures
        table_name(table, id) is Some <==> table_ids(table).contains(id),
{
    crate::lookup::lemma_position(table_ids(table), id);
}

fn contains_pair(pairs: &Vec<(i64, i64)>, key: (i64, i64)) -> (r: bool)
    ensures
        r == pairs@.contains(key),
{
    let mut i: usize = 0;
    while i < pairs.len()
        invariant
            i <= pairs@.len(),
            forall|k: int| 0 <= k < i ==> pairs@[k] != key,
        decreases pairs@.len() - i,
    {
        if pairs[i].0 == key.0 && pairs[i].1 == key.1 {
            assert(pairs@[i as int] == key);
            return true;
        }
        i = i + 1;
    }
    false
}

/// Decides which relations become answer relations.
pub fn plan_relations(
    stubs: &[IssueStub],
    prepared: &Vec<i64>,
    relations: &[RedmineIssueRelation],
) -> (r: RelationPlan)
    ensures
        (r.pairs@, r.notes@) == relation_plan(stubs@, prepared@, relations@),
{
    let mut pairs: Vec<(i64, i64)> = Vec::new();
    let mut notes: Vec<(RelationNoteKind, RedmineIssueRelation)> = Vec::new();
    let mut i: usize = 0;
    assert(relations@.subrange(0, 0) =~= Seq::<RedmineIssueRelation>::empty());
    while i < relations.len()
        invariant
            i <= relations@.len(),
            (pairs@, notes@) == relation_plan(stubs@, prepared@, relations@.subrange(0, i as int)),
        decreases relations@.len() - i,
    {
        let r = &relations[i];
        proof {
            assert(relations@.subrange(0, i + 1).drop_last() =~= relations@.subrange(0, i as int));
            assert(relations@.subrange(0, i + 1).last() == relations@[i as int]);
        }
        let from = listed_tracker(stubs, r.issue_id);
        let to = listed_tracker(stubs, r.issue_to_id);
        if !is_targeted(from) || !is_targeted(to) {
            notes.push((RelationNoteKind::NotBetweenTargets, r.clone()));
        } else if !contains_id(prepared, r.issue_id) || !contains_id(prepared, r.issue_to_id) {
            notes.push((RelationNoteKind::EndpointNotPrepared, r.clone()));
        } else {
            let key = if r.issue_id < r.issue_to_id {
                (r.issue_id, r.issue_to_id)
            } else {
                (r.issue_to_id, r.issue_id)
            };
            if contains_pair(&pairs, key) {
                notes.push((RelationNoteKind::DuplicatePair, r.clone()));
            } else {
                pairs.push(key);
            }
        }
        i = i + 1;
    }
    assert(relations@.subrange(0, i as int) =~= relations@);
    RelationPlan { pairs, notes }
}

/// No two answer relations join the same two issues, and each names the
/// smaller issue ID first.
pub proof fn lemma_planned_pairs_are_distinct_and_ordered(
    stubs: Seq<IssueStub>,
    prepared: Seq<i64>,
    relations: Seq<RedmineIssueRelation>,
)
    ensures
        crate::lookup::no_repeats(relation_plan(stubs, prepared, relations).0),
        forall|k: int|
            0 <= k < relation_plan(stubs, prepared, relations).0.len() ==> #[trigger] relation_plan(
                stubs,
                prepared,
                relations,
            ).0[k].0 <= relation_plan(stubs, prepared, relations).0[k].1,
    decreases relations.len(),
{
    if relations.len() > 0 {
        lemma_planned_pairs_are_distinct_and_ordered(stubs, prepared, relations.drop_last());
        let before = relation_plan(stubs, prepared, relations.drop_last()).0;
        let after = relation_plan(stubs, prepared, relations).0;
        let key = endpoint_key(relations.last());
        if after != before {
            assert(after == before.push(key));
            assert forall|i: int, j: int| 0 <= i < j < after.len() implies after[i] != after[j] by {
                if j == before.len() {
                    assert(after[i] == before[i]);
                    assert(before.contains(before[i]));
                } else {
                    assert(after[i] == before[i]);
                    assert(after[j] == before[j]);
                }
            }
            assert forall|k: int| 0 <= k < after.len() implies #[trigger] after[k].0 <= after[k].1 by {
                if k < before.len() {
                    assert(after[k] == before[k]);
                }
            }
        }
    }
}

} // verus!
