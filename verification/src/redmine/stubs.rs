//! Collecting the issue list of the configured projects, page by page:
//! every issue once, from the configured projects only, in increasing ID
//! order.

use vstd::prelude::*;

use crate::redmine::model::{ImportError, IssueStub, NamedId, RedmineIssueRelation};
use crate::redmine::paging::{next_offset, next_page_offset};
use crate::redmine::relations::{relation_view, RelationView};

verus! {

/// An issue as the issue list gives it.
#[derive(Debug)]
pub struct IssueListItem {
    pub id: i64,
    pub project: NamedId,
    pub tracker: NamedId,
    pub relations: Vec<RedmineIssueRelation>,
}

/// A page of the issue list.
#[derive(Debug)]
pub struct IssuePage {
    pub issues: Vec<IssueListItem>,
    pub total_count: u64,
    pub offset: u64,
}

/// What identifies a stub's content.
pub type StubView = (i64, i64, i64, Seq<char>, Seq<RelationView>);

pub open spec fn relations_view(relations: Seq<RedmineIssueRelation>) -> Seq<RelationView> {
    relations.map_values(|r: RedmineIssueRelation| relation_view(r))
}

pub open spec fn stub_view(s: IssueStub) -> StubView {
    (s.project_id, s.id, s.tracker_id, s.tracker_name@, relations_view(s.relations@))
}

pub open spec fn item_view(item: IssueListItem) -> StubView {
    (item.project.id, item.id, item.tracker.id, item.tracker.name@, relations_view(item.relations@))
}

/// Issues added one by one to `known`, keyed by issue ID: an issue of a
/// project that is not configured, or a second content for a known issue,
/// is refused.
pub open spec fn add_items(
    known: Map<i64, StubView>,
    items: Seq<IssueListItem>,
    projects: Seq<i64>,
    project_id: i64,
) -> Result<Map<i64, StubView>, ImportError>
    decreases items.len(),
{
    if items.len() == 0 {
        Ok(known)
    } else {
        let item = items[0];
        if !projects.contains(item.project.id) {
            Err(
                ImportError::IssueOutsideProjects {
                    project_id,
                    issue_id: item.id,
                    issue_project_id: item.project.id,
                },
            )
        } else if known.contains_key(item.id) && known[item.id] != item_view(item) {
            Err(ImportError::ConflictingIssue { issue_id: item.id })
        } else {
            add_items(known.insert(item.id, item_view(item)), items.drop_first(), projects, project_id)
        }
    }
}

/// A page of the list of `project_id` requested at `requested_offset`: the
/// page has to start there, its issues are added, and the offset of the next
/// page, if any, follows.
pub open spec fn accept_page(
    known: Map<i64, StubView>,
    projects: Seq<i64>,
    project_id: i64,
    requested_offset: u64,
    page: IssuePage,
) -> Result<(Map<i64, StubView>, Option<u64>), ImportError> {
    if page.offset != requested_offset {
        Err(
            ImportError::PageOffsetMismatch {
                project_id,
                requested: requested_offset,
                received: page.offset,
            },
        )
    } else {
        match add_items(known, page.issues@, projects, project_id) {
            Err(e) => Err(e),
            Ok(next) => match next_offset(
                requested_offset,
                page.total_count,
                page.issues@.len() as u64,
            ) {
                Err(e) => Err(e),
                Ok(following) => Ok((next, following)),
            },
        }
    }
}

/// `list` holds exactly the stubs of `index`, in increasing ID order.
pub open spec fn stubs_in_id_order(list: Seq<IssueStub>, index: Map<i64, StubView>) -> bool {
    &&& forall|i: int, j: int| 0 <= i < j < list.len() ==> list[i].id < list[j].id
    &&& forall|i: int|
        0 <= i < list.len() ==> index.contains_key(#[trigger] list[i].id) && index[list[i].id]
            == stub_view(list[i])
    &&& forall|k: i64| index.contains_key(k) ==> exists|i: int| 0 <= i < list.len() && #[trigger] list[i].id == k
}

/// The issues collected so far, for the configured projects.
pub struct StubCollector {
    projects: Vec<i64>,
    stubs: Vec<IssueStub>,
    known: Ghost<Map<i64, StubView>>,
}

impl StubCollector {
    pub closed spec fn projects(&self) -> Seq<i64> {
        self.projects@
    }

    /// The issues collected so far, by ID.
    pub closed spec fn collected(&self) -> Map<i64, StubView> {
        self.known@
    }

    pub closed spec fn well_formed(&self) -> bool {
        stubs_in_id_order(self.stubs@, self.known@)
    }

    /// A collector for the issues of `projects`, holding none yet.
    pub fn new(projects: Vec<i64>) -> (c: Self)
        ensures
            c.projects() == projects@,
            c.collected() == Map::<i64, StubView>::empty(),
            c.well_formed(),
    {
        StubCollector { projects, stubs: Vec::new(), known: Ghost(Map::empty()) }
    }

    /// Takes a page of the list of `project_id` that was requested at
    /// `requested_offset`, and tells where the next page starts, if there is
    /// one.
    pub fn accept_issue_page(&mut self, project_id: i64, requested_offset: u64, page: IssuePage) -> (r:
        Result<Option<u64>, ImportError>)
        requires
            old(self).well_formed(),
        ensures
            final(self).projects() == old(self).projects(),
            match accept_page(
                old(self).collected(),
                old(self).projects(),
                project_id,
                requested_offset,
                page,
            ) {
                Err(e) => r == Err::<Option<u64>, ImportError>(e),
                Ok((next, following)) => r == Ok::<Option<u64>, ImportError>(following)
                    && final(self).collected() == next && final(self).well_formed(),
            },
    {
        if page.offset != requested_offset {
            return Err(
                ImportError::PageOffsetMismatch {
                    project_id,
                    requested: requested_offset,
                    received: page.offset,
                },
            );
        }
        let ghost start = self.known@;
        let page_len = page.issues.len() as u64;
        let ghost all = page.issues@;
        let issues = &page.issues;
        let mut k: usize = 0;
        assert(all.subrange(0, all.len() as int) =~= all);
        while k < issues.len()
            invariant
                issues@ == all,
                all == page.issues@,
                page.offset == requested_offset,
                start == old(self).known@,
                k <= all.len(),
                page_len == all.len(),
                stubs_in_id_order(self.stubs@, self.known@),
                self.projects@ == old(self).projects@,
                add_items(start, all, self.projects@, project_id) == add_items(
                    self.known@,
                    all.subrange(k as int, all.len() as int),
                    self.projects@,
                    project_id,
                ),
            decreases all.len() - k,
        {
            let ghost rest = all.subrange(k as int, all.len() as int);
            assert(rest[0] == all[k as int]);
            assert(rest.drop_first() =~= all.subrange(k + 1, all.len() as int));
            let item = &issues[k];
            if !crate::lookup::contains_id(&self.projects, item.project.id) {
                return Err(
                    ImportError::IssueOutsideProjects {
                        project_id,
                        issue_id: item.id,
                        issue_project_id: item.project.id,
                    },
                );
            }
            match self.insert_item(item) {
                Err(e) => {
                    return Err(e);
                },
                Ok(()) => {},
            }
            k = k + 1;
        }
        assert(add_items(self.known@, Seq::empty(), self.projects@, project_id) == Ok::<
            Map<i64, StubView>,
            ImportError,
        >(self.known@));
        next_page_offset(requested_offset, page.total_count, page_len)
    }

    /// Adds one issue, or refuses it when a different content is known for
    /// its ID.
    fn insert_item(&mut self, item: &IssueListItem) -> (r: Result<(), ImportError>)
        requires
            stubs_in_id_order(old(self).stubs@, old(self).known@),
        ensures
            final(self).projects@ == old(self).projects@,
            if old(self).known@.contains_key(item.id) && old(self).known@[item.id] != item_view(
                *item,
            ) {
                r == Err::<(), ImportError>(ImportError::ConflictingIssue { issue_id: item.id })
            } else {
                r is Ok && final(self).known@ == old(self).known@.insert(item.id, item_view(*item))
                    && stubs_in_id_order(final(self).stubs@, final(self).known@)
            },
    {
        let stub = IssueStub {
            project_id: item.project.id,
            id: item.id,
            tracker_id: item.tracker.id,
            tracker_name: item.tracker.name.clone(),
            relations: clone_relations(&item.relations),
        };
        assert(stub_view(stub) == item_view(*item));
        let mut pos: usize = 0;
        while pos < self.stubs.len() && self.stubs[pos].id < item.id
            invariant
                pos <= self.stubs@.len(),
                forall|i: int| 0 <= i < pos ==> self.stubs@[i].id < item.id,
            decreases self.stubs@.len() - pos,
        {
            pos = pos + 1;
        }
        if pos < self.stubs.len() && self.stubs[pos].id == item.id {
            if !same_stub(&self.stubs[pos], &stub) {
                return Err(ImportError::ConflictingIssue { issue_id: item.id });
            }
            proof {
                assert(self.known@.insert(item.id, item_view(*item)) =~= self.known@);
            }
            return Ok(());
        }
        let ghost known = self.known@;
        proof {
            assert(!known.contains_key(item.id)) by {
                if known.contains_key(item.id) {
                    let i = choose|i: int| 0 <= i < self.stubs@.len() && #[trigger] self.stubs@[i].id == item.id;
                    if i < pos {
                    } else {
                        assert(self.stubs@[pos as int].id <= self.stubs@[i].id);
                    }
                }
            }
        }
        let ghost before = self.stubs@;
        self.stubs.insert(pos, stub);
        proof {
            let next = known.insert(item.id, item_view(*item));
            let list = self.stubs@;
            assert forall|i: int, j: int| 0 <= i < j < list.len() implies list[i].id < list[j].id by {
                if j < pos {
                } else if j == pos {
                } else if i < pos {
                    assert(list[j] == before[j - 1]);
                    if pos < before.len() {
                        assert(before[pos as int].id <= before[j - 1].id);
                    }
                } else if i == pos {
                    assert(list[j] == before[j - 1]);
                    assert(before[pos as int].id <= before[j - 1].id);
                } else {
                    assert(list[j] == before[j - 1]);
                    assert(list[i] == before[i - 1]);
                }
            }
            assert forall|i: int| 0 <= i < list.len() implies next.contains_key(#[trigger] list[i].id)
                && next[list[i].id] == stub_view(list[i]) by {
                if i < pos {
                    assert(list[i] == before[i]);
                } else if i > pos {
                    assert(list[i] == before[i - 1]);
                }
            }
            assert forall|k: i64| next.contains_key(k) implies exists|i: int|
                0 <= i < list.len() && #[trigger] list[i].id == k by {
                if k == item.id {
                    assert(list[pos as int].id == k);
                } else {
                    let i = choose|i: int| 0 <= i < before.len() && #[trigger] before[i].id == k;
                    if i < pos {
                        assert(list[i] == before[i]);
                    } else {
                        assert(list[i + 1] == before[i]);
                    }
                }
            }
            self.known = Ghost(next);
        }
        Ok(())
    }

    /// The collected issues, in increasing ID order.
    pub fn into_stubs(self) -> (stubs: Vec<IssueStub>)
        requires
            self.well_formed(),
        ensures
            stubs_in_id_order(stubs@, self.collected()),
    {
        self.stubs
    }
}

/// Every collected issue is stored under its own ID and belongs to one of
/// `projects`.
pub open spec fn collection_is_sound(known: Map<i64, StubView>, projects: Seq<i64>) -> bool {
    forall|k: i64|
        #[trigger] known.contains_key(k) ==> known[k].1 == k && projects.contains(known[k].0)
}

proof fn lemma_add_items_accepted(
    known: Map<i64, StubView>,
    items: Seq<IssueListItem>,
    projects: Seq<i64>,
    project_id: i64,
    m: Map<i64, StubView>,
)
    requires
        add_items(known, items, projects, project_id) == Ok::<Map<i64, StubView>, ImportError>(m),
        collection_is_sound(known, projects),
    ensures
        collection_is_sound(m, projects),
        forall|k: i64| #[trigger] known.contains_key(k) ==> m.contains_key(k) && m[k] == known[k],
        forall|i: int|
            0 <= i < items.len() ==> m.contains_key(#[trigger] items[i].id) && m[items[i].id]
                == item_view(items[i]),
        forall|k: i64|
            #[trigger] m.contains_key(k) ==> known.contains_key(k) || exists|i: int|
                0 <= i < items.len() && #[trigger] items[i].id == k,
    decreases items.len(),
{
    if items.len() > 0 {
        let item = items[0];
        let next = known.insert(item.id, item_view(item));
        let rest = items.drop_first();
        lemma_add_items_accepted(next, rest, projects, project_id, m);
        assert forall|i: int| 0 <= i < items.len() implies m.contains_key(#[trigger] items[i].id)
            && m[items[i].id] == item_view(items[i]) by {
            if i > 0 {
                assert(rest[i - 1] == items[i]);
            } else {
                assert(next.contains_key(item.id));
            }
        }
        assert forall|k: i64| #[trigger] m.contains_key(k) implies known.contains_key(k) || exists|
            i: int,
        |
            0 <= i < items.len() && #[trigger] items[i].id == k by {
            if !known.contains_key(k) {
                if k == item.id {
                    assert(items[0].id == k);
                } else {
                    let i = choose|i: int| 0 <= i < rest.len() && #[trigger] rest[i].id == k;
                    assert(items[i + 1] == rest[i]);
                }
            }
        }
        assert forall|k: i64| #[trigger] known.contains_key(k) implies m.contains_key(k) && m[k]
            == known[k] by {
            assert(next.contains_key(k));
        }
    }
}

/// An accepted page keeps what was collected, adds each of its issues with
/// the content the page lists, adds nothing else, and keeps every collected
/// issue within the configured projects.
pub proof fn lemma_accepted_page_extends_collection(
    known: Map<i64, StubView>,
    projects: Seq<i64>,
    project_id: i64,
    requested_offset: u64,
    page: IssuePage,
)
    requires
        collection_is_sound(known, projects),
        accept_page(known, projects, project_id, requested_offset, page) is Ok,
    ensures
        ({
            let next = accept_page(known, projects, project_id, requested_offset, page)->Ok_0.0;
            &&& collection_is_sound(next, projects)
            &&& forall|k: i64|
                #[trigger] known.contains_key(k) ==> next.contains_key(k) && next[k] == known[k]
            &&& forall|i: int|
                0 <= i < page.issues@.len() ==> next.contains_key(#[trigger] page.issues@[i].id)
                    && next[page.issues@[i].id] == item_view(page.issues@[i])
            &&& forall|k: i64|
                #[trigger] next.contains_key(k) ==> known.contains_key(k) || exists|i: int|
                    0 <= i < page.issues@.len() && #[trigger] page.issues@[i].id == k
        }),
{
    let next = add_items(known, page.issues@, projects, project_id)->Ok_0;
    lemma_add_items_accepted(known, page.issues@, projects, project_id, next);
}

/// The stubs taken from a sound collection are in strictly increasing ID
/// order (so one per issue), each of a configured project, each with the
/// content collected for its ID, and every collected issue is among them.
pub proof fn lemma_collected_stubs(stubs: Seq<IssueStub>, known: Map<i64, StubView>, projects: Seq<i64>)
    requires
        stubs_in_id_order(stubs, known),
        collection_is_sound(known, projects),
    ensures
        forall|i: int, j: int| 0 <= i < j < stubs.len() ==> stubs[i].id < stubs[j].id,
        forall|i: int|
            0 <= i < stubs.len() ==> projects.contains((#[trigger] stubs[i]).project_id)
                && stub_view(stubs[i]) == known[stubs[i].id],
        forall|k: i64|
            #[trigger] known.contains_key(k) ==> exists|i: int| 0 <= i < stubs.len() && stubs[i].id == k,
{
    assert forall|i: int| 0 <= i < stubs.len() implies projects.contains(
        (#[trigger] stubs[i]).project_id,
    ) && stub_view(stubs[i]) == known[stubs[i].id] by {
        assert(known.contains_key(stubs[i].id));
    }
    assert forall|k: i64| #[trigger] known.contains_key(k) implies exists|i: int|
        0 <= i < stubs.len() && stubs[i].id == k by {
        let i = choose|i: int| 0 <= i < stubs.len() && #[trigger] stubs[i].id == k;
    }
}

fn clone_relations(relations: &Vec<RedmineIssueRelation>) -> (r: Vec<RedmineIssueRelation>)
    ensures
        r@ == relations@,
{
    let mut r: Vec<RedmineIssueRelation> = Vec::new();
    let mut i: usize = 0;
    while i < relations.len()
        invariant
            i <= relations@.len(),
            r@ == relations@.subrange(0, i as int),
        decreases relations@.len() - i,
    {
        r.push(relations[i].clone());
        i = i + 1;
        assert(r@ =~= relations@.subrange(0, i as int));
    }
    assert(r@ =~= relations@);
    r
}

fn same_stub(a: &IssueStub, b: &IssueStub) -> (r: bool)
    ensures
        r == (stub_view(*a) == stub_view(*b)),
{
    if a.project_id != b.project_id || a.id != b.id || a.tracker_id != b.tracker_id || a.tracker_name
        != b.tracker_name {
        return false;
    }
    if a.relations.len() != b.relations.len() {
        assert(relations_view(a.relations@).len() != relations_view(b.relations@).len());
        return false;
    }
    let mut i: usize = 0;
    while i < a.relations.len()
        invariant
            i <= a.relations@.len(),
            a.relations@.len() == b.relations@.len(),
            forall|k: int|
                0 <= k < i ==> relation_view(a.relations@[k]) == relation_view(b.relations@[k]),
        decreases a.relations@.len() - i,
    {
        let x = &a.relations[i];
        let y = &b.relations[i];
        if x.id != y.id || x.issue_id != y.issue_id || x.issue_to_id != y.issue_to_id
            || x.relation_type != y.relation_type {
            assert(relations_view(a.relations@)[i as int] != relations_view(b.relations@)[i as int]);
            return false;
        }
        i = i + 1;
    }
    assert(relations_view(a.relations@) =~= relations_view(b.relations@));
    true
}

} // verus!
