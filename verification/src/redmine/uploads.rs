//! Which downloaded Redmine attachments still have to be uploaded to their
//! portal comments.

use vstd::prelude::*;

use crate::redmine::model::{
    AttachmentUploadCandidate, ImportError, PortalComment, PortalCommentAttachment,
};
use crate::text::{chars_of, seq_equal};
use crate::uuid_text::{parse_uuid, uuid_parse_str};

verus! {

/// An uploaded file as the portal identifies it: journal, file name, size.
pub type FileIdentity = (i64, Seq<char>, u64);

/// How many files of each identity the portal already holds.
pub type FileCounts = Map<FileIdentity, nat>;

pub open spec fn count_of(counts: FileCounts, identity: FileIdentity) -> nat {
    if counts.contains_key(identity) {
        counts[identity]
    } else {
        0
    }
}

pub open spec fn count_files(
    counts: FileCounts,
    journal_id: i64,
    files: Seq<PortalCommentAttachment>,
) -> FileCounts
    decreases files.len(),
{
    if files.len() == 0 {
        counts
    } else {
        let identity = (journal_id, files[0].file_name@, files[0].size);
        count_files(
            counts.insert(identity, count_of(counts, identity) + 1),
            journal_id,
            files.drop_first(),
        )
    }
}

/// The portal comments read in order: the journals they belong to and the
/// files they hold; a comment for no journal is passed over.
pub open spec fn read_comments(journals: Set<i64>, counts: FileCounts, comments: Seq<PortalComment>) -> Result<
    (Set<i64>, FileCounts),
    ImportError,
>
    decreases comments.len(),
{
    if comments.len() == 0 {
        Ok((journals, counts))
    } else {
        let c = comments[0];
        match c.redmine_journal_id {
            None => read_comments(journals, counts, comments.drop_first()),
            Some(journal_id) => if journal_id <= 0 {
                Err(ImportError::InvalidCommentJournalId { journal_id })
            } else if c.id@.len() == 0 || uuid_parse_str(c.id@) is None {
                Err(ImportError::CommentIdNotUuid { comment_id: c.id })
            } else if journals.contains(journal_id) {
                Err(ImportError::DuplicateCommentForJournal { journal_id })
            } else {
                read_comments(
                    journals.insert(journal_id),
                    count_files(counts, journal_id, c.attachments@),
                    comments.drop_first(),
                )
            },
        }
    }
}

/// The candidates read in order: each one that the portal already holds uses
/// up one of its files of the same identity, the others are kept.
pub open spec fn pick_uploads(
    journals: Set<i64>,
    counts: FileCounts,
    kept: Seq<AttachmentUploadCandidate>,
    candidates: Seq<AttachmentUploadCandidate>,
    max_size: u64,
) -> Result<Seq<AttachmentUploadCandidate>, ImportError>
    decreases candidates.len(),
{
    if candidates.len() == 0 {
        Ok(kept)
    } else {
        let c = candidates[0];
        let size = c.content@.len();
        if !journals.contains(c.journal_id) {
            Err(ImportError::NoCommentForJournal { journal_id: c.journal_id })
        } else if size > max_size {
            Err(ImportError::AttachmentTooLarge { attachment_id: c.attachment.id })
        } else if c.attachment.filesize matches Some(expected) && expected != size {
            Err(ImportError::FilesizeMismatch { attachment_id: c.attachment.id })
        } else {
            let identity = (c.journal_id, c.attachment.filename@, size as u64);
            if count_of(counts, identity) > 0 {
                pick_uploads(
                    journals,
                    counts.insert(identity, (count_of(counts, identity) - 1) as nat),
                    kept,
                    candidates.drop_first(),
                    max_size,
                )
            } else {
                pick_uploads(journals, counts, kept.push(c), candidates.drop_first(), max_size)
            }
        }
    }
}

/// How many files the portal comments hold together.
pub open spec fn total_files(comments: Seq<PortalComment>) -> nat
    decreases comments.len(),
{
    if comments.len() == 0 {
        0
    } else {
        comments[0].attachments@.len() + total_files(comments.drop_first())
    }
}

/// Where the portal holds no file at all, every candidate is uploaded, in
/// order, unless one is refused.
pub proof fn lemma_nothing_held_means_everything_uploaded(
    journals: Set<i64>,
    counts: FileCounts,
    kept: Seq<AttachmentUploadCandidate>,
    candidates: Seq<AttachmentUploadCandidate>,
    max_size: u64,
)
    requires
        forall|identity: FileIdentity| #[trigger] count_of(counts, identity) == 0,
    ensures
        pick_uploads(journals, counts, kept, candidates, max_size) is Ok ==> pick_uploads(
            journals,
            counts,
            kept,
            candidates,
            max_size,
        ) == Ok::<Seq<AttachmentUploadCandidate>, ImportError>(kept + candidates),
    decreases candidates.len(),
{
    if candidates.len() > 0 {
        let c = candidates[0];
        lemma_nothing_held_means_everything_uploaded(
            journals,
            counts,
            kept.push(c),
            candidates.drop_first(),
            max_size,
        );
        assert(kept.push(c) + candidates.drop_first() =~= kept + candidates);
    } else {
        assert(kept + candidates =~= kept);
    }
}

/// A candidate that the portal already holds a file of is not uploaded
/// again.
pub proof fn lemma_held_file_is_not_uploaded_again(
    journals: Set<i64>,
    counts: FileCounts,
    kept: Seq<AttachmentUploadCandidate>,
    candidates: Seq<AttachmentUploadCandidate>,
    max_size: u64,
)
    requires
        candidates.len() > 0,
        count_of(
            counts,
            (
                candidates[0].journal_id,
                candidates[0].attachment.filename@,
                candidates[0].content@.len() as u64,
            ),
        ) > 0,
        pick_uploads(journals, counts, kept, candidates, max_size) is Ok,
    ensures
        pick_uploads(journals, counts, kept, candidates, max_size) == pick_uploads(
            journals,
            counts.insert(
                (
                    candidates[0].journal_id,
                    candidates[0].attachment.filename@,
                    candidates[0].content@.len() as u64,
                ),
                (count_of(
                    counts,
                    (
                        candidates[0].journal_id,
                        candidates[0].attachment.filename@,
                        candidates[0].content@.len() as u64,
                    ),
                ) - 1) as nat,
            ),
            kept,
            candidates.drop_first(),
            max_size,
        ),
{
}

pub open spec fn attachment_uploads(
    comments: Seq<PortalComment>,
    candidates: Seq<AttachmentUploadCandidate>,
    max_size: u64,
) -> Result<Seq<AttachmentUploadCandidate>, ImportError> {
    match read_comments(Set::empty(), Map::empty(), comments) {
        Err(e) => Err(e),
        Ok((journals, counts)) => pick_uploads(journals, counts, Seq::empty(), candidates, max_size),
    }
}

/// File identities with their counts, held as parallel vectors.
struct CountTable {
    journal_ids: Vec<i64>,
    names: Vec<Vec<char>>,
    sizes: Vec<u64>,
    counts: Vec<usize>,
}

impl CountTable {
    spec fn holds(&self, counts: FileCounts) -> bool {
        &&& self.journal_ids@.len() == self.names@.len()
        &&& self.journal_ids@.len() == self.sizes@.len()
        &&& self.journal_ids@.len() == self.counts@.len()
        &&& forall|i: int|
            0 <= i < self.journal_ids@.len() ==> #[trigger] count_of(
                counts,
                (self.journal_ids@[i], self.names@[i]@, self.sizes@[i]),
            ) == self.counts@[i]
        &&& forall|i: int, j: int|
            0 <= i < j < self.journal_ids@.len() ==> (self.journal_ids@[i], self.names@[i]@,
            self.sizes@[i]) != (self.journal_ids@[j], self.names@[j]@, self.sizes@[j])
        &&& forall|identity: FileIdentity|
            count_of(counts, identity) > 0 ==> exists|i: int|
                0 <= i < self.journal_ids@.len() && #[trigger] self.journal_ids@[i] == identity.0
                    && self.names@[i]@ == identity.1 && self.sizes@[i] == identity.2
    }

    fn find(&self, journal_id: i64, name: &Vec<char>, size: u64) -> (r: Option<usize>)
        requires
            self.journal_ids@.len() == self.names@.len(),
            self.journal_ids@.len() == self.sizes@.len(),
        ensures
            match r {
                Some(i) => i < self.journal_ids@.len() && self.journal_ids@[i as int] == journal_id
                    && self.names@[i as int]@ == name@ && self.sizes@[i as int] == size,
                None => forall|i: int|
                    0 <= i < self.journal_ids@.len() ==> !(self.journal_ids@[i] == journal_id
                        && self.names@[i]@ == name@ && self.sizes@[i] == size),
            },
    {
        let mut i: usize = 0;
        while i < self.journal_ids.len()
            invariant
                self.journal_ids@.len() == self.names@.len(),
                self.journal_ids@.len() == self.sizes@.len(),
                i <= self.journal_ids@.len(),
                forall|k: int|
                    0 <= k < i ==> !(self.journal_ids@[k] == journal_id && self.names@[k]@ == name@
                        && self.sizes@[k] == size),
            decreases self.journal_ids@.len() - i,
        {
            if self.journal_ids[i] == journal_id && self.sizes[i] == size && seq_equal(
                &self.names[i],
                name,
            ) {
                return Some(i);
            }
            i = i + 1;
        }
        None
    }

    fn add_one(&mut self, journal_id: i64, name: Vec<char>, size: u64, counts: Ghost<FileCounts>)
        requires
            old(self).holds(counts@),
            count_of(counts@, (journal_id, name@, size)) < usize::MAX,
        ensures
            final(self).holds(
                counts@.insert(
                    (journal_id, name@, size),
                    count_of(counts@, (journal_id, name@, size)) + 1,
                ),
            ),
    {
        let ghost identity = (journal_id, name@, size);
        let ghost next = counts@.insert(identity, count_of(counts@, identity) + 1);
        let ghost ids = self.journal_ids@;
        let ghost names = self.names@;
        let ghost sizes = self.sizes@;
        let ghost held = self.counts@;
        let ghost len = ids.len();
        match self.find(journal_id, &name, size) {
            Some(i) => {
                let c = self.counts[i];
                assert(count_of(counts@, (ids[i as int], names[i as int]@, sizes[i as int])) == c);
                self.counts.set(i, c + 1);
                proof {
                    assert forall|k: int| 0 <= k < len implies #[trigger] count_of(
                        next,
                        (self.journal_ids@[k], self.names@[k]@, self.sizes@[k]),
                    ) == self.counts@[k] by {
                        if k != i {
                            assert(count_of(counts@, (ids[k], names[k]@, sizes[k])) == held[k]);
                            if k < i {
                                assert((ids[k], names[k]@, sizes[k]) != (ids[i as int],
                                names[i as int]@, sizes[i as int]));
                            } else {
                                assert((ids[i as int], names[i as int]@, sizes[i as int]) != (
                                ids[k], names[k]@, sizes[k]));
                            }
                        }
                    }
                    assert forall|id: FileIdentity| count_of(next, id) > 0 implies exists|k: int|
                        0 <= k < self.journal_ids@.len() && #[trigger] self.journal_ids@[k] == id.0
                            && self.names@[k]@ == id.1 && self.sizes@[k] == id.2 by {
                        if id == identity {
                            assert(self.journal_ids@[i as int] == id.0);
                        } else {
                            assert(count_of(counts@, id) > 0);
                            let k = choose|k: int|
                                0 <= k < len && #[trigger] ids[k] == id.0 && names[k]@ == id.1
                                    && sizes[k] == id.2;
                            assert(self.journal_ids@[k] == ids[k]);
                        }
                    }
                }
            },
            None => {
                proof {
                    if count_of(counts@, identity) > 0 {
                        let k = choose|k: int|
                            0 <= k < len && #[trigger] ids[k] == identity.0 && names[k]@
                                == identity.1 && sizes[k] == identity.2;
                        assert(false);
                    }
                }
                self.journal_ids.push(journal_id);
                self.names.push(name);
                self.sizes.push(size);
                self.counts.push(1);
                proof {
                    assert forall|k: int| 0 <= k < self.journal_ids@.len() implies #[trigger] count_of(
                        next,
                        (self.journal_ids@[k], self.names@[k]@, self.sizes@[k]),
                    ) == self.counts@[k] by {
                        if k < len {
                            assert(self.journal_ids@[k] == ids[k]);
                            assert(self.names@[k] == names[k]);
                            assert(self.sizes@[k] == sizes[k]);
                            assert(self.counts@[k] == held[k]);
                            assert(count_of(counts@, (ids[k], names[k]@, sizes[k])) == held[k]);
                            assert((ids[k], names[k]@, sizes[k]) != identity);
                        }
                    }
                    assert forall|a: int, b: int|
                        0 <= a < b < self.journal_ids@.len() implies (self.journal_ids@[a],
                        self.names@[a]@, self.sizes@[a]) != (self.journal_ids@[b],
                        self.names@[b]@, self.sizes@[b]) by {
                        assert(self.names@[a] == names[a]);
                        if b < len {
                            assert(self.names@[b] == names[b]);
                        }
                    }
                    assert forall|id: FileIdentity| count_of(next, id) > 0 implies exists|k: int|
                        0 <= k < self.journal_ids@.len() && #[trigger] self.journal_ids@[k] == id.0
                            && self.names@[k]@ == id.1 && self.sizes@[k] == id.2 by {
                        if id == identity {
                            assert(self.journal_ids@[len as int] == id.0);
                        } else {
                            assert(count_of(counts@, id) > 0);
                            let k = choose|k: int|
                                0 <= k < len && #[trigger] ids[k] == id.0 && names[k]@ == id.1
                                    && sizes[k] == id.2;
                            assert(self.journal_ids@[k] == ids[k]);
                            assert(self.names@[k] == names[k]);
                        }
                    }
                }
            },
        }
    }
    /// Uses up one file of the identity held at `i`.
    fn use_one(&mut self, i: usize, counts: Ghost<FileCounts>)
        requires
            old(self).holds(counts@),
            i < old(self).journal_ids@.len(),
            old(self).counts@[i as int] > 0,
        ensures
            final(self).journal_ids@ == old(self).journal_ids@,
            final(self).names@ == old(self).names@,
            final(self).sizes@ == old(self).sizes@,
            final(self).holds(
                counts@.insert(
                    (old(self).journal_ids@[i as int], old(self).names@[i as int]@, old(
                        self,
                    ).sizes@[i as int]),
                    (old(self).counts@[i as int] - 1) as nat,
                ),
            ),
    {
        let ghost ids = self.journal_ids@;
        let ghost names = self.names@;
        let ghost sizes = self.sizes@;
        let ghost held = self.counts@;
        let ghost len = ids.len();
        let ghost identity = (ids[i as int], names[i as int]@, sizes[i as int]);
        let ghost next = counts@.insert(identity, (held[i as int] - 1) as nat);
        let c = self.counts[i];
        self.counts.set(i, c - 1);
        proof {
            assert forall|k: int| 0 <= k < len implies #[trigger] count_of(
                next,
                (self.journal_ids@[k], self.names@[k]@, self.sizes@[k]),
            ) == self.counts@[k] by {
                if k != i {
                    assert(count_of(counts@, (ids[k], names[k]@, sizes[k])) == held[k]);
                    if k < i {
                        assert((ids[k], names[k]@, sizes[k]) != identity);
                    } else {
                        assert(identity != (ids[k], names[k]@, sizes[k]));
                    }
                }
            }
            assert forall|id: FileIdentity| count_of(next, id) > 0 implies exists|k: int|
                0 <= k < self.journal_ids@.len() && #[trigger] self.journal_ids@[k] == id.0
                    && self.names@[k]@ == id.1 && self.sizes@[k] == id.2 by {
                if id == identity {
                    assert(self.journal_ids@[i as int] == id.0);
                } else {
                    assert(count_of(counts@, id) > 0);
                    let k = choose|k: int|
                        0 <= k < len && #[trigger] ids[k] == id.0 && names[k]@ == id.1
                            && sizes[k] == id.2;
                    assert(self.journal_ids@[k] == ids[k]);
                }
            }
        }
    }
}

fn journal_listed(journals: &Vec<i64>, journal_id: i64) -> (r: bool)
    ensures
        r == journals@.contains(journal_id),
{
    let mut i: usize = 0;
    while i < journals.len()
        invariant
            i <= journals@.len(),
            forall|k: int| 0 <= k < i ==> journals@[k] != journal_id,
        decreases journals@.len() - i,
    {
        if journals[i] == journal_id {
            return true;
        }
        i = i + 1;
    }
    false
}

/// The candidates that still have to be uploaded, in order: a candidate is
/// passed over when its comment already holds a file of the same name and
/// size that no earlier candidate has matched. Refused when a comment is
/// malformed or repeated, a candidate has no comment, is larger than
/// `max_attachment_size`, or differs in size from its metadata.
#[verifier::rlimit(30)]
pub fn select_attachment_uploads(
    comments: &[PortalComment],
    candidates: Vec<AttachmentUploadCandidate>,
    max_attachment_size: u64,
) -> (r: Result<Vec<AttachmentUploadCandidate>, ImportError>)
    requires
        total_files(comments@) <= usize::MAX,
    ensures
        match attachment_uploads(comments@, candidates@, max_attachment_size) {
            Err(e) => r matches Err(f) && f == e,
            Ok(kept) => r matches Ok(uploads) && uploads@ == kept,
        },
{
    let ghost goal = attachment_uploads(comments@, candidates@, max_attachment_size);
    let mut journals: Vec<i64> = Vec::new();
    let ghost mut journal_set: Set<i64> = Set::empty();
    let mut table = CountTable {
        journal_ids: Vec::new(),
        names: Vec::new(),
        sizes: Vec::new(),
        counts: Vec::new(),
    };
    let ghost mut counts: FileCounts = Map::empty();
    let mut n: usize = 0;
    let ghost mut seen: nat = 0;
    assert(comments@.subrange(0, comments@.len() as int) =~= comments@);
    while n < comments.len()
        invariant
            n <= comments@.len(),
            table.holds(counts),
            forall|j: i64| journal_set.contains(j) <==> journals@.contains(j),
            forall|identity: FileIdentity| #[trigger] count_of(counts, identity) <= seen,
            seen + total_files(comments@.subrange(n as int, comments@.len() as int)) <= total_files(
                comments@,
            ),
            total_files(comments@) <= usize::MAX,
            read_comments(Set::empty(), Map::empty(), comments@) == read_comments(
                journal_set,
                counts,
                comments@.subrange(n as int, comments@.len() as int),
            ),
        decreases comments@.len() - n,
    {
        let comment = &comments[n];
        let ghost rest = comments@.subrange(n as int, comments@.len() as int);
        assert(rest[0] == *comment);
        assert(rest.drop_first() =~= comments@.subrange(n + 1, comments@.len() as int));
        if let Some(journal_id) = comment.redmine_journal_id {
            if journal_id <= 0 {
                return Err(ImportError::InvalidCommentJournalId { journal_id });
            }
            if comment.id.as_str().is_empty() || parse_uuid(comment.id.as_str()).is_none() {
                return Err(ImportError::CommentIdNotUuid { comment_id: comment.id.clone() });
            }
            if journal_listed(&journals, journal_id) {
                return Err(ImportError::DuplicateCommentForJournal { journal_id });
            }
            let ghost before = journals@;
            journals.push(journal_id);
            proof {
                journal_set = journal_set.insert(journal_id);
                assert forall|j: i64| journal_set.contains(j) <==> journals@.contains(j) by {
                    if j == journal_id {
                        assert(journals@[before.len() as int] == j);
                    } else if journals@.contains(j) {
                        let t = choose|t: int| 0 <= t < journals@.len() && journals@[t] == j;
                        assert(before[t] == j);
                    } else if before.contains(j) {
                        let t = choose|t: int| 0 <= t < before.len() && before[t] == j;
                        assert(journals@[t] == j);
                    }
                }
            }
            let mut f: usize = 0;
            let ghost at_comment = counts;
            assert(comment.attachments@.subrange(0, comment.attachments@.len() as int)
                =~= comment.attachments@);
            while f < comment.attachments.len()
                invariant
                    f <= comment.attachments@.len(),
                    table.holds(counts),
                    forall|identity: FileIdentity| #[trigger] count_of(counts, identity) <= seen,
                    rest == comments@.subrange(n as int, comments@.len() as int),
                    n < comments@.len(),
                    seen + (comment.attachments@.len() - f) + total_files(rest.drop_first())
                        <= total_files(comments@),
                    total_files(comments@) <= usize::MAX,
                    count_files(at_comment, journal_id, comment.attachments@) == count_files(
                        counts,
                        journal_id,
                        comment.attachments@.subrange(f as int, comment.attachments@.len() as int),
                    ),
                decreases comment.attachments@.len() - f,
            {
                let file = &comment.attachments[f];
                let ghost frest = comment.attachments@.subrange(
                    f as int,
                    comment.attachments@.len() as int,
                );
                assert(frest[0] == *file);
                assert(frest.drop_first() =~= comment.attachments@.subrange(
                    f + 1,
                    comment.attachments@.len() as int,
                ));
                let name = chars_of(file.file_name.as_str());
                let ghost identity = (journal_id, name@, file.size);
                assert(count_of(counts, identity) <= seen);
                table.add_one(journal_id, name, file.size, Ghost(counts));
                proof {
                    let prev = counts;
                    counts = counts.insert(identity, count_of(counts, identity) + 1);
                    seen = seen + 1;
                    assert forall|id: FileIdentity| #[trigger] count_of(counts, id) <= seen by {
                        assert(count_of(prev, id) <= seen - 1);
                    }
                }
                f = f + 1;
            }
        }
        n = n + 1;
    }
    assert(read_comments(journal_set, counts, Seq::empty()) == Ok::<(Set<i64>, FileCounts), ImportError>(
        (journal_set, counts),
    ));
    let mut pending = candidates;
    let mut uploads: Vec<AttachmentUploadCandidate> = Vec::new();
    assert(uploads@ =~= Seq::<AttachmentUploadCandidate>::empty());
    while pending.len() > 0
        invariant
            table.holds(counts),
            forall|j: i64| journal_set.contains(j) <==> journals@.contains(j),
            goal == attachment_uploads(comments@, candidates@, max_attachment_size),
            goal == pick_uploads(journal_set, counts, uploads@, pending@, max_attachment_size),
        decreases pending@.len(),
    {
        let ghost before = pending@;
        let candidate = pending.remove(0);
        assert(before[0] == candidate);
        assert(before.drop_first() =~= pending@);
        if !journal_listed(&journals, candidate.journal_id) {
            return Err(ImportError::NoCommentForJournal { journal_id: candidate.journal_id });
        }
        let size = candidate.content.len() as u64;
        if size > max_attachment_size {
            return Err(ImportError::AttachmentTooLarge { attachment_id: candidate.attachment.id });
        }
        if let Some(expected) = candidate.attachment.filesize {
            if expected != size {
                return Err(ImportError::FilesizeMismatch { attachment_id: candidate.attachment.id });
            }
        }
        let name = chars_of(candidate.attachment.filename.as_str());
        match table.find(candidate.journal_id, &name, size) {
            Some(i) if table.counts[i] > 0 => {
                let ghost identity = (candidate.journal_id, name@, size);
                table.use_one(i, Ghost(counts));
                proof {
                    counts = counts.insert(identity, (count_of(counts, identity) - 1) as nat);
                }
            },
            found => {
                proof {
                    let identity = (candidate.journal_id, name@, size);
                    if count_of(counts, identity) > 0 {
                        let k = choose|k: int|
                            0 <= k < table.journal_ids@.len() && #[trigger] table.journal_ids@[k]
                                == identity.0 && table.names@[k]@ == identity.1 && table.sizes@[k]
                                == identity.2;
                        if let Some(i) = found {
                            assert(k == i);
                        }
                    }
                }
                uploads.push(candidate);
            },
        }
    }
    Ok(uploads)
}

} // verus!
