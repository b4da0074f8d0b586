//! The relations between Redmine issues, each once.

use vstd::prelude::*;

use crate::redmine::model::{ImportError, IssueStub, RedmineIssueRelation};

verus! {

/// What identifies a relation's content: its ID, its two endpoints in the
/// order given, and its type.
pub type RelationView = (i64, i64, i64, Seq<char>);

pub open spec fn relation_view(r: RedmineIssueRelation) -> RelationView {
    (r.id, r.issue_id, r.issue_to_id, r.relation_type@)
}

/// The relation with its endpoints ordered, smaller issue first.
pub open spec fn normalized(r: RedmineIssueRelation) -> RelationView {
    if r.issue_id < r.issue_to_id {
        (r.id, r.issue_id, r.issue_to_id, r.relation_type@)
    } else {
        (r.id, r.issue_to_id, r.issue_id, r.relation_type@)
    }
}

/// Relations added one by one to `known`, keyed by relation ID: an invalid
/// relation, a self-reference, or a second content for a known ID is refused.
pub open spec fn add_relations(
    known: Map<i64, RelationView>,
    relations: Seq<RedmineIssueRelation>,
) -> Result<Map<i64, RelationView>, ImportError>
    decreases relations.len(),
{
    if relations.len() == 0 {
        Ok(known)
    } else {
        let r = relations[0];
        if r.id <= 0 || r.issue_id <= 0 || r.issue_to_id <= 0 {
            Err(ImportError::InvalidRelation { relation_id: r.id })
        } else if r.issue_id == r.issue_to_id {
            Err(ImportError::SelfReferencingRelation { relation_id: r.id })
        } else if known.contains_key(r.id) && known[r.id] != normalized(r) {
            Err(ImportError::ConflictingRelation { relation_id: r.id })
        } else {
            add_relations(known.insert(r.id, normalized(r)), relations.drop_first())
        }
    }
}

pub open spec fn add_stub_relations(known: Map<i64, RelationView>, stubs: Seq<IssueStub>) -> Result<
    Map<i64, RelationView>,
    ImportError,
>
    decreases stubs.len(),
{
    if stubs.len() == 0 {
        Ok(known)
    } else {
        match add_relations(known, stubs[0].relations@) {
            Err(e) => Err(e),
            Ok(next) => add_stub_relations(next, stubs.drop_first()),
        }
    }
}

/// The relations of all stubs, keyed by relation ID.
pub open spec fn relation_index(stubs: Seq<IssueStub>) -> Result<Map<i64, RelationView>, ImportError> {
    add_stub_relations(Map::empty(), stubs)
}

/// `list` holds exactly the relations of `index`, in increasing ID order.
pub open spec fn lists_in_id_order(list: Seq<RedmineIssueRelation>, index: Map<i64, RelationView>) -> bool {
    &&& forall|i: int, j: int| 0 <= i < j < list.len() ==> list[i].id < list[j].id
    &&& forall|i: int|
        0 <= i < list.len() ==> index.contains_key(#[trigger] list[i].id) && index[list[i].id]
            == relation_view(list[i])
    &&& forall|k: i64| index.contains_key(k) ==> exists|i: int| 0 <= i < list.len() && #[trigger] list[i].id == k
}

/// A relation is the same whichever of its two issues lists it.
pub proof fn lemma_relation_direction_does_not_matter(r: RedmineIssueRelation)
    requires
        r.issue_id != r.issue_to_id,
    ensures
        normalized(r) == normalized(
            RedmineIssueRelation {
                id: r.id,
                issue_id: r.issue_to_id,
                issue_to_id: r.issue_id,
                relation_type: r.relation_type,
            },
        ),
{
}

/// Adding relations adds the first, then the rest.
pub proof fn lemma_add_relations_step(known: Map<i64, RelationView>, relations: Seq<RedmineIssueRelation>)
    requires
        relations.len() > 0,
    ensures
        add_relations(known, relations) == match add_relations(known, seq![relations[0]]) {
            Err(e) => Err(e),
            Ok(next) => add_relations(next, relations.drop_first()),
        },
{
    let single = seq![relations[0]];
    assert(single.drop_first() =~= Seq::<RedmineIssueRelation>::empty());
    let r = relations[0];
    let next = known.insert(r.id, normalized(r));
    assert(add_relations(next, single.drop_first()) == Ok::<Map<i64, RelationView>, ImportError>(
        next,
    ));
}

/// A relation that cannot be imported: an ID or endpoint that is not
/// positive, or an issue related to itself.
pub open spec fn relation_is_invalid(r: RedmineIssueRelation) -> bool {
    r.id <= 0 || r.issue_id <= 0 || r.issue_to_id <= 0 || r.issue_id == r.issue_to_id
}

/// The relations of all stubs, in order.
pub open spec fn all_relations(stubs: Seq<IssueStub>) -> Seq<RedmineIssueRelation>
    decreases stubs.len(),
{
    if stubs.len() == 0 {
        Seq::empty()
    } else {
        stubs[0].relations@ + all_relations(stubs.drop_first())
    }
}

/// Two relations with one ID whose contents differ once their endpoints are
/// ordered.
pub open spec fn relations_conflict(rs: Seq<RedmineIssueRelation>) -> bool {
    exists|i: int, j: int|
        0 <= j < i < rs.len() && #[trigger] rs[i].id == #[trigger] rs[j].id && normalized(rs[i])
            != normalized(rs[j])
}

/// A relation that disagrees with what `known` holds for its ID.
pub open spec fn conflicts_with_known(known: Map<i64, RelationView>, rs: Seq<RedmineIssueRelation>) -> bool {
    exists|i: int|
        0 <= i < rs.len() && known.contains_key(#[trigger] rs[i].id) && known[rs[i].id]
            != normalized(rs[i])
}

/// Every entry is stored under its own positive ID, with positive endpoints,
/// the smaller first.
pub open spec fn index_is_ordered(known: Map<i64, RelationView>) -> bool {
    forall|k: i64|
        #[trigger] known.contains_key(k) ==> known[k].0 == k && 0 < k && 0 < known[k].1
            < known[k].2
}

proof fn lemma_add_relations_concat(
    known: Map<i64, RelationView>,
    a: Seq<RedmineIssueRelation>,
    b: Seq<RedmineIssueRelation>,
)
    ensures
        add_relations(known, a + b) == match add_relations(known, a) {
            Err(e) => Err(e),
            Ok(next) => add_relations(next, b),
        },
    decreases a.len(),
{
    if a.len() == 0 {
        assert(a + b =~= b);
    } else {
        assert((a + b)[0] == a[0]);
        assert((a + b).drop_first() =~= a.drop_first() + b);
        let r = a[0];
        lemma_add_relations_concat(known.insert(r.id, normalized(r)), a.drop_first(), b);
    }
}

proof fn lemma_stub_relations_flatten(known: Map<i64, RelationView>, stubs: Seq<IssueStub>)
    ensures
        add_stub_relations(known, stubs) == add_relations(known, all_relations(stubs)),
    decreases stubs.len(),
{
    if stubs.len() == 0 {
        assert(add_relations(known, Seq::<RedmineIssueRelation>::empty()) == Ok::<
            Map<i64, RelationView>,
            ImportError,
        >(known));
    } else {
        lemma_add_relations_concat(known, stubs[0].relations@, all_relations(stubs.drop_first()));
        match add_relations(known, stubs[0].relations@) {
            Err(e) => {},
            Ok(next) => {
                lemma_stub_relations_flatten(next, stubs.drop_first());
            },
        }
    }
}

proof fn lemma_add_relations_refused_iff(known: Map<i64, RelationView>, rs: Seq<RedmineIssueRelation>)
    ensures
        add_relations(known, rs) is Err <==> (exists|i: int|
            0 <= i < rs.len() && relation_is_invalid(#[trigger] rs[i])) || conflicts_with_known(
            known,
            rs,
        ) || relations_conflict(rs),
    decreases rs.len(),
{
    if rs.len() > 0 {
        let r = rs[0];
        if relation_is_invalid(r) {
            assert(relation_is_invalid(rs[0]));
        } else if known.contains_key(r.id) && known[r.id] != normalized(r) {
            assert(known.contains_key(rs[0].id));
        } else {
            let next = known.insert(r.id, normalized(r));
            let rest = rs.drop_first();
            lemma_add_relations_refused_iff(next, rest);
            if (exists|i: int| 0 <= i < rs.len() && relation_is_invalid(#[trigger] rs[i])) {
                let i = choose|i: int| 0 <= i < rs.len() && relation_is_invalid(#[trigger] rs[i]);
                assert(rest[i - 1] == rs[i]);
                assert(relation_is_invalid(rest[i - 1]));
            }
            if conflicts_with_known(known, rs) {
                let i = choose|i: int|
                    0 <= i < rs.len() && known.contains_key(#[trigger] rs[i].id) && known[rs[i].id]
                        != normalized(rs[i]);
                assert(rest[i - 1] == rs[i]);
                assert(next.contains_key(rest[i - 1].id));
            }
            if relations_conflict(rs) {
                let (i, j) = choose|i: int, j: int|
                    0 <= j < i < rs.len() && #[trigger] rs[i].id == #[trigger] rs[j].id
                        && normalized(rs[i]) != normalized(rs[j]);
                assert(rest[i - 1] == rs[i]);
                if j == 0 {
                    assert(next.contains_key(rest[i - 1].id));
                } else {
                    assert(rest[j - 1] == rs[j]);
                }
            }
            if (exists|i: int| 0 <= i < rest.len() && relation_is_invalid(#[trigger] rest[i])) {
                let i = choose|i: int| 0 <= i < rest.len() && relation_is_invalid(#[trigger] rest[i]);
                assert(rs[i + 1] == rest[i]);
                assert(relation_is_invalid(rs[i + 1]));
            }
            if conflicts_with_known(next, rest) {
                let i = choose|i: int|
                    0 <= i < rest.len() && next.contains_key(#[trigger] rest[i].id)
                        && next[rest[i].id] != normalized(rest[i]);
                assert(rs[i + 1] == rest[i]);
                if rest[i].id == r.id {
                    assert(rs[i + 1].id == rs[0].id && normalized(rs[i + 1]) != normalized(rs[0]));
                } else {
                    assert(known.contains_key(rs[i + 1].id));
                }
            }
            if relations_conflict(rest) {
                let (i, j) = choose|i: int, j: int|
                    0 <= j < i < rest.len() && #[trigger] rest[i].id == #[trigger] rest[j].id
                        && normalized(rest[i]) != normalized(rest[j]);
                assert(rs[i + 1] == rest[i]);
                assert(rs[j + 1] == rest[j]);
                assert(rs[i + 1].id == rs[j + 1].id);
            }
        }
    }
}

proof fn lemma_add_relations_accepted(
    known: Map<i64, RelationView>,
    rs: Seq<RedmineIssueRelation>,
    m: Map<i64, RelationView>,
)
    requires
        add_relations(known, rs) == Ok::<Map<i64, RelationView>, ImportError>(m),
        index_is_ordered(known),
    ensures
        index_is_ordered(m),
        forall|k: i64| #[trigger] known.contains_key(k) ==> m.contains_key(k) && m[k] == known[k],
        forall|i: int|
            0 <= i < rs.len() ==> m.contains_key(#[trigger] rs[i].id) && m[rs[i].id] == normalized(
                rs[i],
            ),
        forall|k: i64|
            #[trigger] m.contains_key(k) ==> known.contains_key(k) || exists|i: int|
                0 <= i < rs.len() && #[trigger] rs[i].id == k,
    decreases rs.len(),
{
    if rs.len() > 0 {
        let r = rs[0];
        let next = known.insert(r.id, normalized(r));
        let rest = rs.drop_first();
        assert(index_is_ordered(next));
        lemma_add_relations_accepted(next, rest, m);
        assert forall|i: int| 0 <= i < rs.len() implies m.contains_key(#[trigger] rs[i].id)
            && m[rs[i].id] == normalized(rs[i]) by {
            if i > 0 {
                assert(rest[i - 1] == rs[i]);
            } else {
                assert(next.contains_key(r.id));
            }
        }
        assert forall|k: i64| #[trigger] m.contains_key(k) implies known.contains_key(k) || exists|
            i: int,
        |
            0 <= i < rs.len() && #[trigger] rs[i].id == k by {
            if !known.contains_key(k) {
                if k == r.id {
                    assert(rs[0].id == k);
                } else {
                    let i = choose|i: int| 0 <= i < rest.len() && #[trigger] rest[i].id == k;
                    assert(rs[i + 1] == rest[i]);
                }
            }
        }
        assert forall|k: i64| #[trigger] known.contains_key(k) implies m.contains_key(k) && m[k]
            == known[k] by {
            assert(next.contains_key(k));
        }
    }
}

/// The relation list is refused exactly when some relation of the stubs is
/// invalid or refers to its own issue, or two relations with one ID differ
/// once their endpoints are ordered.
pub proof fn lemma_relation_list_refused_iff(stubs: Seq<IssueStub>)
    ensures
        relation_index(stubs) is Err <==> (exists|i: int|
            0 <= i < all_relations(stubs).len() && relation_is_invalid(
                #[trigger] all_relations(stubs)[i],
            )) || relations_conflict(all_relations(stubs)),
{
    lemma_stub_relations_flatten(Map::empty(), stubs);
    lemma_add_relations_refused_iff(Map::empty(), all_relations(stubs));
}

/// An accepted relation list is sorted by ID with each ID once, holds only
/// positive IDs with the smaller issue first, holds every relation of the
/// stubs with its endpoints ordered, and nothing else.
pub proof fn lemma_relation_list_contents(stubs: Seq<IssueStub>, list: Seq<RedmineIssueRelation>)
    requires
        relation_index(stubs) is Ok,
        lists_in_id_order(list, relation_index(stubs)->Ok_0),
    ensures
        forall|i: int, j: int| 0 <= i < j < list.len() ==> list[i].id < list[j].id,
        forall|i: int|
            0 <= i < list.len() ==> 0 < (#[trigger] list[i]).id && 0 < list[i].issue_id
                < list[i].issue_to_id,
        forall|k: int|
            0 <= k < all_relations(stubs).len() ==> exists|i: int|
                0 <= i < list.len() && #[trigger] list[i].id == (#[trigger] all_relations(
                    stubs,
                )[k]).id && relation_view(list[i]) == normalized(all_relations(stubs)[k]),
        forall|i: int|
            0 <= i < list.len() ==> exists|k: int|
                0 <= k < all_relations(stubs).len() && #[trigger] all_relations(stubs)[k].id
                    == (#[trigger] list[i]).id,
{
    let all = all_relations(stubs);
    let index = relation_index(stubs)->Ok_0;
    lemma_stub_relations_flatten(Map::empty(), stubs);
    lemma_add_relations_accepted(Map::empty(), all, index);
    assert forall|i: int| 0 <= i < list.len() implies 0 < (#[trigger] list[i]).id && 0
        < list[i].issue_id < list[i].issue_to_id by {
        assert(index.contains_key(list[i].id));
    }
    assert forall|k: int| 0 <= k < all.len() implies exists|i: int|
        0 <= i < list.len() && #[trigger] list[i].id == (#[trigger] all[k]).id && relation_view(
            list[i],
        ) == normalized(all[k]) by {
        assert(index.contains_key(all[k].id));
        let i = choose|i: int| 0 <= i < list.len() && #[trigger] list[i].id == all[k].id;
        assert(list[i].id == all[k].id);
    }
    assert forall|i: int| 0 <= i < list.len() implies exists|k: int|
        0 <= k < all.len() && #[trigger] all[k].id == (#[trigger] list[i]).id by {
        assert(index.contains_key(list[i].id));
    }
}

fn insert_relation(
    list: &mut Vec<RedmineIssueRelation>,
    known: Ghost<Map<i64, RelationView>>,
    relation: &RedmineIssueRelation,
) -> (r: Result<(), ImportError>)
    requires
        lists_in_id_order(old(list)@, known@),
    ensures
        match add_relations(known@, seq![*relation]) {
            Err(e) => r == Err::<(), ImportError>(e),
            Ok(next) => r is Ok && next == known@.insert(relation.id, normalized(*relation))
                && lists_in_id_order(final(list)@, next),
        },
{
    let ghost rs = seq![*relation];
    assert(rs.drop_first() =~= Seq::<RedmineIssueRelation>::empty());
    assert(add_relations(
        known@.insert(relation.id, normalized(*relation)),
        rs.drop_first(),
    ) == Ok::<Map<i64, RelationView>, ImportError>(
        known@.insert(relation.id, normalized(*relation)),
    ));
    if relation.id <= 0 || relation.issue_id <= 0 || relation.issue_to_id <= 0 {
        return Err(ImportError::InvalidRelation { relation_id: relation.id });
    }
    if relation.issue_id == relation.issue_to_id {
        return Err(ImportError::SelfReferencingRelation { relation_id: relation.id });
    }
    let (issue_id, issue_to_id) = if relation.issue_id < relation.issue_to_id {
        (relation.issue_id, relation.issue_to_id)
    } else {
        (relation.issue_to_id, relation.issue_id)
    };
    let normalized_relation = RedmineIssueRelation {
        id: relation.id,
        issue_id,
        issue_to_id,
        relation_type: relation.relation_type.clone(),
    };
    assert(relation_view(normalized_relation) == normalized(*relation));
    let mut pos: usize = 0;
    while pos < list.len() && list[pos].id < relation.id
        invariant
            pos <= list@.len(),
            forall|i: int| 0 <= i < pos ==> list@[i].id < relation.id,
        decreases list@.len() - pos,
    {
        pos = pos + 1;
    }
    if pos < list.len() && list[pos].id == relation.id {
        let existing = &list[pos];
        if existing.issue_id != normalized_relation.issue_id || existing.issue_to_id
            != normalized_relation.issue_to_id || existing.relation_type
            != normalized_relation.relation_type {
            return Err(ImportError::ConflictingRelation { relation_id: relation.id });
        }
        proof {
            assert(known@.insert(relation.id, normalized(*relation)) =~= known@);
        }
        return Ok(());
    }
    proof {
        assert(!known@.contains_key(relation.id)) by {
            if known@.contains_key(relation.id) {
                let i = choose|i: int| 0 <= i < list@.len() && #[trigger] list@[i].id == relation.id;
                if i < pos {
                } else {
                    assert(list@[pos as int].id <= list@[i].id);
                }
            }
        }
    }
    let ghost before = list@;
    list.insert(pos, normalized_relation);
    proof {
        let next = known@.insert(relation.id, normalized(*relation));
        assert forall|i: int, j: int| 0 <= i < j < list@.len() implies list@[i].id
            < list@[j].id by {
            if j < pos {
            } else if j == pos {
            } else if i < pos {
                assert(list@[j] == before[j - 1]);
                if pos < before.len() {
                    assert(before[pos as int].id <= before[j - 1].id);
                }
            } else if i == pos {
                assert(list@[j] == before[j - 1]);
                assert(before[pos as int].id <= before[j - 1].id);
            } else {
                assert(list@[j] == before[j - 1]);
                assert(list@[i] == before[i - 1]);
            }
        }
        assert forall|i: int| 0 <= i < list@.len() implies next.contains_key(
            #[trigger] list@[i].id,
        ) && next[list@[i].id] == relation_view(list@[i]) by {
            if i < pos {
                assert(list@[i] == before[i]);
            } else if i > pos {
                assert(list@[i] == before[i - 1]);
            }
        }
        assert forall|k: i64| next.contains_key(k) implies exists|i: int|
            0 <= i < list@.len() && #[trigger] list@[i].id == k by {
            if k == relation.id {
                assert(list@[pos as int].id == k);
            } else {
                let i = choose|i: int| 0 <= i < before.len() && #[trigger] before[i].id == k;
                if i < pos {
                    assert(list@[i] == before[i]);
                } else {
                    assert(list@[i + 1] == before[i]);
                }
            }
        }
    }
    Ok(())
}

/// The relations of all stubs, each relation ID once with its endpoints
/// ordered, in increasing ID order; refused when a relation is invalid,
/// refers to its own issue, or appears twice with different contents.
pub fn unique_issue_relations(stubs: &[IssueStub]) -> (r: Result<
    Vec<RedmineIssueRelation>,
    ImportError,
>)
    ensures
        match relation_index(stubs@) {
            Err(e) => r == Err::<Vec<RedmineIssueRelation>, ImportError>(e),
            Ok(index) => r matches Ok(list) && lists_in_id_order(list@, index),
        },
{
    let mut list: Vec<RedmineIssueRelation> = Vec::new();
    let ghost mut known: Map<i64, RelationView> = Map::empty();
    let mut s: usize = 0;
    assert(stubs@.subrange(0, stubs@.len() as int) =~= stubs@);
    while s < stubs.len()
        invariant
            s <= stubs@.len(),
            lists_in_id_order(list@, known),
            relation_index(stubs@) == add_stub_relations(
                known,
                stubs@.subrange(s as int, stubs@.len() as int),
            ),
        decreases stubs@.len() - s,
    {
        let stub = &stubs[s];
        let ghost at_stub = known;
        let mut k: usize = 0;
        assert(stub.relations@.subrange(0, stub.relations@.len() as int) =~= stub.relations@);
        while k < stub.relations.len()
            invariant
                s < stubs@.len(),
                stub == stubs@[s as int],
                relation_index(stubs@) == add_stub_relations(
                    at_stub,
                    stubs@.subrange(s as int, stubs@.len() as int),
                ),
                k <= stub.relations@.len(),
                lists_in_id_order(list@, known),
                add_relations(at_stub, stub.relations@) == add_relations(
                    known,
                    stub.relations@.subrange(k as int, stub.relations@.len() as int),
                ),
            decreases stub.relations@.len() - k,
        {
            let relation = &stub.relations[k];
            let ghost rest = stub.relations@.subrange(k as int, stub.relations@.len() as int);
            assert(rest[0] == *relation);
            assert(rest.drop_first() =~= stub.relations@.subrange(k + 1, stub.relations@.len() as int));
            proof {
                lemma_add_relations_step(known, rest);
            }
            match insert_relation(&mut list, Ghost(known), relation) {
                Err(e) => {
                    proof {
                        let tail = stubs@.subrange(s as int, stubs@.len() as int);
                        assert(tail[0] == *stub);
                        assert(add_stub_relations(known, tail) == match add_relations(known, tail[0].relations@) {
                            Err(e) => Err(e),
                            Ok(next) => add_stub_relations(next, tail.drop_first()),
                        });
                    }
                    return Err(e);
                },
                Ok(()) => {},
            }
            proof {
                known = known.insert(relation.id, normalized(*relation));
            }
            k = k + 1;
        }
        proof {
            let tail = stubs@.subrange(s as int, stubs@.len() as int);
            assert(tail[0] == *stub);
            assert(tail.drop_first() =~= stubs@.subrange(s + 1, stubs@.len() as int));
        }
        s = s + 1;
    }
    Ok(list)
}

} // verus!
