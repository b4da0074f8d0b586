//! The files to upload, gathered by the portal comment that receives them:
//! one request per comment, the comments in the order of their IDs, each
//! comment's files in the order in which they came.

use vstd::prelude::*;

use crate::redmine::model::{
    AttachmentUploadCandidate, ImportError, PortalAttachmentUpload, PortalComment,
};
use crate::text::chars_of;

verus! {

/// Whether `a` comes before `b` from position `k` on, comparing character
/// by character, a proper prefix first: the order of `String`.
pub open spec fn less_from(a: Seq<char>, b: Seq<char>, k: int) -> bool
    decreases a.len() - k,
{
    if k < 0 || k >= a.len() {
        0 <= k < b.len()
    } else if k >= b.len() {
        false
    } else if a[k] != b[k] {
        (a[k] as int) < (b[k] as int)
    } else {
        less_from(a, b, k + 1)
    }
}

/// Whether `a` comes before `b` in the order of `String`.
pub open spec fn text_less(a: Seq<char>, b: Seq<char>) -> bool {
    less_from(a, b, 0)
}

fn text_before(a: &str, b: &str) -> (r: bool)
    ensures
        r == text_less(a@, b@),
{
    let x = chars_of(a);
    let y = chars_of(b);
    let mut k: usize = 0;
    while k < x.len() && k < y.len()
        invariant
            x@ == a@,
            y@ == b@,
            k <= x@.len(),
            k <= y@.len(),
            text_less(a@, b@) == less_from(a@, b@, k as int),
        decreases x@.len() - k,
    {
        if x[k] != y[k] {
            return x[k] < y[k];
        }
        k = k + 1;
    }
    k < y.len()
}

/// A file to upload, by its parts: name, content type, content.
pub type UploadView = (Seq<char>, Seq<char>, Seq<u8>);

/// The files of one comment: the comment's ID and its files.
pub type GroupView = (Seq<char>, Seq<UploadView>);

pub open spec fn upload_view(u: PortalAttachmentUpload) -> UploadView {
    (u.file_name@, u.content_type@, u.content@)
}

pub open spec fn candidate_upload(c: AttachmentUploadCandidate) -> UploadView {
    (c.attachment.filename@, c.content_type@, c.content@)
}

pub open spec fn group_view(g: (String, Vec<PortalAttachmentUpload>)) -> GroupView {
    (g.0@, g.1@.map_values(|u: PortalAttachmentUpload| upload_view(u)))
}

pub open spec fn groups_view(groups: Seq<(String, Vec<PortalAttachmentUpload>)>) -> Seq<GroupView> {
    groups.map_values(|g: (String, Vec<PortalAttachmentUpload>)| group_view(g))
}

/// A file added to the groups: at the end of its comment's files, or as a
/// new group in its place in the order of comment IDs.
pub open spec fn insert_upload(groups: Seq<GroupView>, key: Seq<char>, u: UploadView) -> Seq<
    GroupView,
>
    decreases groups.len(),
{
    if groups.len() == 0 {
        seq![(key, seq![u])]
    } else if groups[0].0 == key {
        seq![(key, groups[0].1.push(u))] + groups.drop_first()
    } else if text_less(key, groups[0].0) {
        seq![(key, seq![u])] + groups
    } else {
        seq![groups[0]] + insert_upload(groups.drop_first(), key, u)
    }
}

/// The comment of a journal: the last comment that names it.
pub open spec fn comment_for_journal(comments: Seq<PortalComment>, journal_id: i64) -> Option<
    Seq<char>,
>
    decreases comments.len(),
{
    if comments.len() == 0 {
        None
    } else if comments.last().redmine_journal_id == Some(journal_id) {
        Some(comments.last().id@)
    } else {
        comment_for_journal(comments.drop_last(), journal_id)
    }
}

/// The files gathered in order; a file whose journal has no comment fails
/// them all.
pub open spec fn gathered(comments: Seq<PortalComment>, uploads: Seq<AttachmentUploadCandidate>) -> Result<
    Seq<GroupView>,
    ImportError,
>
    decreases uploads.len(),
{
    if uploads.len() == 0 {
        Ok(Seq::empty())
    } else {
        match gathered(comments, uploads.drop_last()) {
            Err(e) => Err(e),
            Ok(groups) => {
                let u = uploads.last();
                match comment_for_journal(comments, u.journal_id) {
                    None => Err(ImportError::NoCommentForJournal { journal_id: u.journal_id }),
                    Some(key) => Ok(insert_upload(groups, key, candidate_upload(u))),
                }
            },
        }
    }
}

/// The comment IDs of the groups are in increasing order, each once.
pub open spec fn keys_increasing(groups: Seq<GroupView>) -> bool {
    forall|i: int, j: int| 0 <= i < j < groups.len() ==> text_less(groups[i].0, groups[j].0)
}

fn find_comment(comments: &[PortalComment], journal_id: i64) -> (r: Option<usize>)
    ensures
        match comment_for_journal(comments@, journal_id) {
            Some(key) => r matches Some(i) && i < comments@.len() && comments@[i as int].id@ == key,
            None => r is None,
        },
{
    let mut found: Option<usize> = None;
    let mut i: usize = 0;
    while i < comments.len()
        invariant
            i <= comments@.len(),
            match comment_for_journal(comments@.subrange(0, i as int), journal_id) {
                Some(key) => found matches Some(k) && k < i && comments@[k as int].id@ == key,
                None => found is None,
            },
        decreases comments@.len() - i,
    {
        assert(comments@.subrange(0, i + 1).drop_last() =~= comments@.subrange(0, i as int));
        if comments[i].redmine_journal_id == Some(journal_id) {
            found = Some(i);
        }
        i = i + 1;
    }
    assert(comments@.subrange(0, i as int) =~= comments@);
    found
}

proof fn lemma_insert_after_prefix(groups: Seq<GroupView>, p: int, key: Seq<char>, u: UploadView)
    requires
        0 <= p <= groups.len(),
        forall|i: int| 0 <= i < p ==> groups[i].0 != key && !text_less(key, groups[i].0),
    ensures
        insert_upload(groups, key, u) == groups.subrange(0, p) + insert_upload(
            groups.subrange(p, groups.len() as int),
            key,
            u,
        ),
    decreases p,
{
    if p == 0 {
        assert(groups.subrange(0, 0) + insert_upload(groups.subrange(0, groups.len() as int), key, u)
            =~= insert_upload(groups, key, u)) by {
            assert(groups.subrange(0, groups.len() as int) =~= groups);
        }
    } else {
        let rest = groups.drop_first();
        assert forall|i: int| 0 <= i < p - 1 implies rest[i].0 != key && !text_less(
            key,
            rest[i].0,
        ) by {
            assert(rest[i] == groups[i + 1]);
        }
        lemma_insert_after_prefix(rest, p - 1, key, u);
        assert(rest.subrange(p - 1, rest.len() as int) =~= groups.subrange(p, groups.len() as int));
        assert(seq![groups[0]] + rest.subrange(0, p - 1) =~= groups.subrange(0, p));
        assert(seq![groups[0]] + (rest.subrange(0, p - 1) + insert_upload(
            groups.subrange(p, groups.len() as int),
            key,
            u,
        )) =~= groups.subrange(0, p) + insert_upload(
            groups.subrange(p, groups.len() as int),
            key,
            u,
        ));
    }
}

/// Adds one file to its group.
fn add_to_group(
    groups: &mut Vec<(String, Vec<PortalAttachmentUpload>)>,
    key: &String,
    upload: PortalAttachmentUpload,
)
    ensures
        groups_view(final(groups)@) == insert_upload(
            groups_view(old(groups)@),
            key@,
            upload_view(upload),
        ),
{
    let ghost start = groups_view(groups@);
    let mut p: usize = 0;
    while p < groups.len()
        invariant
            p <= groups@.len(),
            start == groups_view(groups@),
            forall|i: int|
                0 <= i < p ==> groups@[i].0@ != key@ && !text_less(key@, groups@[i].0@),
        ensures
            p <= groups@.len(),
            start == groups_view(groups@),
            forall|i: int|
                0 <= i < p ==> groups@[i].0@ != key@ && !text_less(key@, groups@[i].0@),
            p < groups@.len() ==> (groups@[p as int].0@ == key@ || text_less(
                key@,
                groups@[p as int].0@,
            )),
        decreases groups@.len() - p,
    {
        if crate::text::text_equal(groups[p].0.as_str(), key.as_str()) || text_before(
            key.as_str(),
            groups[p].0.as_str(),
        ) {
            break;
        }
        p = p + 1;
    }
    proof {
        assert forall|i: int| 0 <= i < p implies start[i].0 != key@ && !text_less(
            key@,
            start[i].0,
        ) by {
            assert(start[i] == group_view(groups@[i]));
        }
        lemma_insert_after_prefix(start, p as int, key@, upload_view(upload));
    }
    let ghost tail = start.subrange(p as int, start.len() as int);
    if p < groups.len() && crate::text::text_equal(groups[p].0.as_str(), key.as_str()) {
        let ghost before = groups@;
        let (name, mut files) = groups.remove(p);
        let ghost old_files = files@;
        files.push(upload);
        let ghost new_group = (name, files);
        groups.insert(p, (name, files));
        proof {
            assert(groups@ =~= before.update(p as int, new_group));
            assert(groups_view(groups@) =~= start.update(p as int, group_view(new_group)));
            assert(tail[0] == group_view(before[p as int]));
            assert(name@ == key@);
            assert(insert_upload(tail, key@, upload_view(upload)) == seq![
                (key@, tail[0].1.push(upload_view(upload))),
            ] + tail.drop_first());
            assert(files@.map_values(|u: PortalAttachmentUpload| upload_view(u)) =~= old_files.map_values(
                |u: PortalAttachmentUpload| upload_view(u),
            ).push(upload_view(upload)));
            assert(tail.drop_first() =~= start.subrange(p + 1, start.len() as int));
            assert(groups_view(groups@) =~= start.subrange(0, p as int) + (seq![
                (key@, tail[0].1.push(upload_view(upload))),
            ] + tail.drop_first()));
            assert(groups_view(groups@) == insert_upload(start, key@, upload_view(upload)));
        }
    } else {
        let ghost before = groups@;
        let mut files: Vec<PortalAttachmentUpload> = Vec::new();
        files.push(upload);
        groups.insert(p, (key.clone(), files));
        proof {
            assert(files@.map_values(|u: PortalAttachmentUpload| upload_view(u)) =~= seq![
                upload_view(upload),
            ]);
            if p < before.len() {
                assert(tail[0] == group_view(before[p as int]));
                assert(insert_upload(tail, key@, upload_view(upload)) == seq![
                    (key@, seq![upload_view(upload)]),
                ] + tail);
            }
            assert(groups_view(groups@) =~= start.subrange(0, p as int) + (seq![
                (key@, seq![upload_view(upload)]),
            ] + tail));
            if p == before.len() {
                assert(tail =~= Seq::<GroupView>::empty());
                assert(seq![(key@, seq![upload_view(upload)])] + tail =~= seq![
                    (key@, seq![upload_view(upload)]),
                ]);
            }
            assert(groups_view(groups@) == insert_upload(start, key@, upload_view(upload)));
        }
    }
}

/// The files to upload, gathered by the comment of their journal.
pub fn uploads_by_comment(
    comments: &[PortalComment],
    uploads: Vec<AttachmentUploadCandidate>,
) -> (r: Result<Vec<(String, Vec<PortalAttachmentUpload>)>, ImportError>)
    ensures
        match gathered(comments@, uploads@) {
            Ok(groups) => r matches Ok(g) && groups_view(g@) == groups,
            Err(e) => r == Err::<Vec<(String, Vec<PortalAttachmentUpload>)>, ImportError>(e),
        },
{
    let ghost all = uploads@;
    let mut groups: Vec<(String, Vec<PortalAttachmentUpload>)> = Vec::new();
    let mut rest = uploads;
    let n = rest.len();
    let mut i: usize = 0;
    assert(all.subrange(0, 0) =~= Seq::<AttachmentUploadCandidate>::empty());
    assert(groups_view(groups@) =~= Seq::<GroupView>::empty());
    assert(all.subrange(0, all.len() as int) =~= all);
    while rest.len() > 0
        invariant
            i <= all.len(),
            all == uploads@,
            all.len() == n,
            rest@ == all.subrange(i as int, all.len() as int),
            gathered(comments@, all.subrange(0, i as int)) == Ok::<Seq<GroupView>, ImportError>(
                groups_view(groups@),
            ),
        decreases rest@.len(),
    {
        let candidate = rest.remove(0);
        proof {
            assert(candidate == all[i as int]);
            assert(rest@ =~= all.subrange(i + 1, all.len() as int));
            assert(all.subrange(0, i + 1).drop_last() =~= all.subrange(0, i as int));
        }
        let journal_id = candidate.journal_id;
        let c = match find_comment(comments, journal_id) {
            Some(c) => c,
            None => {
                proof {
                    let upto = all.subrange(0, i + 1);
                    assert(upto.last() == candidate);
                    assert(gathered(comments@, upto) == Err::<Seq<GroupView>, ImportError>(
                        ImportError::NoCommentForJournal { journal_id },
                    ));
                    lemma_gathered_prefix_error(comments@, all, i + 1);
                    assert(gathered(comments@, uploads@) == Err::<Seq<GroupView>, ImportError>(
                        ImportError::NoCommentForJournal { journal_id },
                    ));
                }
                return Err(ImportError::NoCommentForJournal { journal_id });
            },
        };
        let AttachmentUploadCandidate { journal_id: _, attachment, content_type, content } = candidate;
        let upload = PortalAttachmentUpload { file_name: attachment.filename, content_type, content };
        add_to_group(&mut groups, &comments[c].id, upload);
        i = i + 1;
    }
    assert(all.subrange(0, i as int) =~= all);
    Ok(groups)
}

proof fn lemma_gathered_prefix_error(
    comments: Seq<PortalComment>,
    all: Seq<AttachmentUploadCandidate>,
    n: int,
)
    requires
        0 <= n <= all.len(),
        gathered(comments, all.subrange(0, n)) is Err,
    ensures
        gathered(comments, all) == gathered(comments, all.subrange(0, n)),
    decreases all.len() - n,
{
    if n == all.len() {
        assert(all.subrange(0, n) =~= all);
    } else {
        assert(all.subrange(0, n + 1).drop_last() =~= all.subrange(0, n));
        lemma_gathered_prefix_error(comments, all, n + 1);
    }
}

/// The groups are always in increasing order of comment ID, each comment
/// once: `insert_upload` keeps that order.
pub proof fn lemma_insert_keeps_keys_increasing(groups: Seq<GroupView>, key: Seq<char>, u: UploadView)
    requires
        keys_increasing(groups),
    ensures
        keys_increasing(insert_upload(groups, key, u)),
        insert_upload(groups, key, u).len() == groups.len() || insert_upload(groups, key, u).len()
            == groups.len() + 1,
    decreases groups.len(),
{
    if groups.len() == 0 {
    } else if groups[0].0 == key {
        let r = insert_upload(groups, key, u);
        assert forall|i: int, j: int| 0 <= i < j < r.len() implies text_less(r[i].0, r[j].0) by {
            assert(r[i].0 == groups[i].0);
            assert(r[j].0 == groups[j].0);
        }
    } else if text_less(key, groups[0].0) {
        let r = insert_upload(groups, key, u);
        assert forall|i: int, j: int| 0 <= i < j < r.len() implies text_less(r[i].0, r[j].0) by {
            if i == 0 {
                if j > 1 {
                    lemma_text_less_transitive(key, groups[0].0, groups[j - 1].0);
                }
            } else {
                assert(r[i] == groups[i - 1]);
                assert(r[j] == groups[j - 1]);
            }
        }
    } else {
        let rest = groups.drop_first();
        assert forall|i: int, j: int| 0 <= i < j < rest.len() implies text_less(rest[i].0, rest[j].0) by {
            assert(rest[i] == groups[i + 1]);
            assert(rest[j] == groups[j + 1]);
        }
        lemma_insert_keeps_keys_increasing(rest, key, u);
        lemma_text_less_total(key, groups[0].0);
        assert forall|i: int| 0 <= i < rest.len() implies text_less(groups[0].0, #[trigger] rest[i].0) by {
            assert(rest[i] == groups[i + 1]);
        }
        let tail = insert_upload(rest, key, u);
        let r = insert_upload(groups, key, u);
        assert forall|i: int, j: int| 0 <= i < j < r.len() implies text_less(r[i].0, r[j].0) by {
            if i == 0 {
                lemma_insert_keys_from(rest, key, u, groups[0].0, j - 1);
            } else {
                assert(r[i] == tail[i - 1]);
                assert(r[j] == tail[j - 1]);
            }
        }
    }
}

/// Every key of the groups after an insertion is one of the keys before it
/// or the inserted one; so it comes after anything that comes before all of
/// those.
proof fn lemma_insert_keys_from(
    groups: Seq<GroupView>,
    key: Seq<char>,
    u: UploadView,
    low: Seq<char>,
    j: int,
)
    requires
        keys_increasing(groups),
        text_less(low, key),
        forall|i: int| 0 <= i < groups.len() ==> text_less(low, #[trigger] groups[i].0),
        0 <= j < insert_upload(groups, key, u).len(),
    ensures
        text_less(low, insert_upload(groups, key, u)[j].0),
    decreases groups.len(),
{
    if groups.len() == 0 {
    } else if groups[0].0 == key {
        if j > 0 {
            assert(insert_upload(groups, key, u)[j] == groups[j]);
        }
    } else if text_less(key, groups[0].0) {
        if j > 0 {
            assert(insert_upload(groups, key, u)[j] == groups[j - 1]);
        }
    } else {
        if j > 0 {
            let rest = groups.drop_first();
            assert forall|i: int| 0 <= i < rest.len() implies text_less(low, #[trigger] rest[i].0) by {
                assert(rest[i] == groups[i + 1]);
            }
            lemma_insert_keys_from(rest, key, u, low, j - 1);
        }
    }
}

proof fn lemma_less_from_transitive(a: Seq<char>, b: Seq<char>, c: Seq<char>, k: int)
    requires
        0 <= k,
        less_from(a, b, k),
        less_from(b, c, k),
    ensures
        less_from(a, c, k),
    decreases a.len() - k,
{
    if k < a.len() && k < b.len() && k < c.len() && a[k] == b[k] && b[k] == c[k] {
        lemma_less_from_transitive(a, b, c, k + 1);
    }
}

proof fn lemma_text_less_transitive(a: Seq<char>, b: Seq<char>, c: Seq<char>)
    requires
        text_less(a, b),
        text_less(b, c),
    ensures
        text_less(a, c),
{
    lemma_less_from_transitive(a, b, c, 0);
}

proof fn lemma_less_from_total(a: Seq<char>, b: Seq<char>, k: int)
    requires
        0 <= k <= a.len(),
        k <= b.len(),
        a.subrange(0, k) == b.subrange(0, k),
    ensures
        a == b || less_from(a, b, k) || less_from(b, a, k),
    decreases a.len() - k,
{
    if k < a.len() && k < b.len() && a[k] == b[k] {
        assert(a.subrange(0, k + 1) =~= a.subrange(0, k).push(a[k]));
        assert(b.subrange(0, k + 1) =~= b.subrange(0, k).push(b[k]));
        lemma_less_from_total(a, b, k + 1);
    } else if k == a.len() && k == b.len() {
        assert(a =~= a.subrange(0, k));
        assert(b =~= b.subrange(0, k));
    }
}

proof fn lemma_text_less_total(a: Seq<char>, b: Seq<char>)
    ensures
        a == b || text_less(a, b) || text_less(b, a),
{
    assert(a.subrange(0, 0) =~= b.subrange(0, 0));
    lemma_less_from_total(a, b, 0);
}

/// However the files arrive, each comment gets one group, and the groups
/// come in increasing order of comment ID.
pub proof fn lemma_gathered_keys_increasing(
    comments: Seq<PortalComment>,
    uploads: Seq<AttachmentUploadCandidate>,
)
    requires
        gathered(comments, uploads) is Ok,
    ensures
        keys_increasing(gathered(comments, uploads)->Ok_0),
    decreases uploads.len(),
{
    if uploads.len() > 0 {
        lemma_gathered_keys_increasing(comments, uploads.drop_last());
        let groups = gathered(comments, uploads.drop_last())->Ok_0;
        let u = uploads.last();
        let key = comment_for_journal(comments, u.journal_id)->0;
        lemma_insert_keeps_keys_increasing(groups, key, candidate_upload(u));
    }
}

} // verus!
