//! Reading the files of a comment-attachment request, part by part as the
//! multipart body arrives: every part is a file, and the number of files,
//! the size of each and the size of the whole request stay within limits.

use vstd::prelude::*;

use crate::numbers::{decimal_digits, push_decimal_digits};
use crate::text::{append_str, chars_of, string_of, text_equal};

verus! {

/// A file of a comment-attachment request.
#[derive(Debug)]
pub struct CommentAttachmentUpload {
    pub file_name: String,
    pub content_type: String,
    pub content: Vec<u8>,
}

/// Why a comment-attachment request is refused.
#[derive(Debug, Clone, Copy, PartialEq, Eq, Structural)]
pub enum UploadProblem {
    /// A part is not named `file`.
    FieldNotNamedFile,
    /// More files than a comment may have.
    TooManyAttachments { max_attachments: usize },
    /// A file part without a file name.
    MissingFileName,
    /// A file over the size limit.
    AttachmentTooLarge { max_attachment_size: usize },
    /// A request over its size limit.
    RequestTooLarge,
    /// A request without any file.
    NoFile,
}

/// The text with which a request is refused.
pub open spec fn problem_text(p: UploadProblem) -> Seq<char> {
    match p {
        UploadProblem::FieldNotNamedFile => "multipart field must be named file"@,
        UploadProblem::TooManyAttachments { max_attachments } => "a comment must not have more than "@
            + decimal_digits(max_attachments as nat) + " attachments"@,
        UploadProblem::MissingFileName => "multipart file name is missing"@,
        UploadProblem::AttachmentTooLarge { max_attachment_size } =>
            "comment attachment must not exceed "@ + decimal_digits(max_attachment_size as nat)
            + " bytes"@,
        UploadProblem::RequestTooLarge => "multipart request is too large"@,
        UploadProblem::NoFile => "at least one file is required"@,
    }
}

impl UploadProblem {
    /// The text with which the request is refused.
    pub fn message(&self) -> (r: String)
        ensures
            r@ == problem_text(*self),
    {
        let mut text: Vec<char> = Vec::new();
        match self {
            UploadProblem::FieldNotNamedFile => append_str(
                &mut text,
                "multipart field must be named file",
            ),
            UploadProblem::TooManyAttachments { max_attachments } => {
                append_str(&mut text, "a comment must not have more than ");
                push_decimal_digits(*max_attachments as u64, &mut text);
                append_str(&mut text, " attachments");
            },
            UploadProblem::MissingFileName => append_str(&mut text, "multipart file name is missing"),
            UploadProblem::AttachmentTooLarge { max_attachment_size } => {
                append_str(&mut text, "comment attachment must not exceed ");
                push_decimal_digits(*max_attachment_size as u64, &mut text);
                append_str(&mut text, " bytes");
            },
            UploadProblem::RequestTooLarge => append_str(&mut text, "multipart request is too large"),
            UploadProblem::NoFile => append_str(&mut text, "at least one file is required"),
        }
        string_of(&text)
    }
}

/// The size of a request with this many files of at most this size: the
/// files, and a mebibyte for the rest of the body.
pub open spec fn request_size_limit(max_attachment_size: usize, max_attachments: usize) -> int {
    max_attachment_size * max_attachments + 1024 * 1024
}

/// The bytes of the files read so far.
pub open spec fn total_size(uploads: Seq<CommentAttachmentUpload>) -> int
    decreases uploads.len(),
{
    if uploads.len() == 0 {
        0
    } else {
        total_size(uploads.drop_last()) + uploads.last().content@.len()
    }
}

/// The content type of a part: its own, unless it is missing or empty.
pub open spec fn part_content_type(content_type: Option<Seq<char>>) -> Seq<char> {
    match content_type {
        Some(t) => if t.len() == 0 {
            "application/octet-stream"@
        } else {
            t
        },
        None => "application/octet-stream"@,
    }
}

/// The files of a request, read as its parts arrive.
pub struct CommentUploadReader {
    max_attachment_size: usize,
    max_attachments: usize,
    max_request_size: usize,
    uploads: Vec<CommentAttachmentUpload>,
    current: Option<CommentAttachmentUpload>,
    received: usize,
}

impl CommentUploadReader {
    pub closed spec fn max_attachment_size(&self) -> usize {
        self.max_attachment_size
    }

    pub closed spec fn max_attachments(&self) -> usize {
        self.max_attachments
    }

    pub closed spec fn max_request_size(&self) -> usize {
        self.max_request_size
    }

    /// The files read to their end.
    pub closed spec fn uploads(&self) -> Seq<CommentAttachmentUpload> {
        self.uploads@
    }

    /// The file being read, if a part is open.
    pub closed spec fn current(&self) -> Option<CommentAttachmentUpload> {
        self.current
    }

    /// The bytes received so far, over all files.
    pub closed spec fn received(&self) -> int {
        self.received as int
    }

    /// What holds between two parts and within one: never more files than
    /// allowed, no file over its limit, and the request within its own.
    pub closed spec fn well_formed(&self) -> bool {
        &&& self.max_request_size == request_size_limit(
            self.max_attachment_size,
            self.max_attachments,
        )
        &&& self.uploads@.len() <= self.max_attachments
        &&& forall|i: int|
            0 <= i < self.uploads@.len() ==> #[trigger] self.uploads@[i].content@.len()
                <= self.max_attachment_size
        &&& match self.current {
            Some(c) => {
                &&& c.content@.len() <= self.max_attachment_size
                &&& self.uploads@.len() < self.max_attachments
                &&& self.received == total_size(self.uploads@) + c.content@.len()
            },
            None => self.received == total_size(self.uploads@),
        }
        &&& self.received <= self.max_request_size
    }

    pub fn new(max_attachment_size: usize, max_attachments: usize) -> (r: Self)
        requires
            request_size_limit(max_attachment_size, max_attachments) <= usize::MAX,
        ensures
            r.well_formed(),
            r.max_attachment_size() == max_attachment_size,
            r.max_attachments() == max_attachments,
            r.uploads().len() == 0,
            r.current() is None,
    {
        assert(0 <= max_attachment_size * max_attachments) by (nonlinear_arith);
        let max_request_size = max_attachment_size * max_attachments + 1024 * 1024;
        CommentUploadReader {
            max_attachment_size,
            max_attachments,
            max_request_size,
            uploads: Vec::new(),
            current: None,
            received: 0,
        }
    }

    /// A new part begins: it has to be named `file`, leave room for one more
    /// file, and carry a file name.
    pub fn begin_part(
        &mut self,
        name: Option<&str>,
        file_name: Option<String>,
        content_type: Option<String>,
    ) -> (r: Result<(), UploadProblem>)
        requires
            old(self).well_formed(),
            old(self).current() is None,
        ensures
            final(self).well_formed(),
            final(self).max_attachment_size() == old(self).max_attachment_size(),
            final(self).max_attachments() == old(self).max_attachments(),
            final(self).uploads() == old(self).uploads(),
            final(self).received() == old(self).received(),
            !(name matches Some(n) && n@ == "file"@) ==> r == Err::<(), UploadProblem>(
                UploadProblem::FieldNotNamedFile,
            ),
            (name matches Some(n) && n@ == "file"@) && old(self).uploads().len()
                >= old(self).max_attachments() ==> r == Err::<(), UploadProblem>(
                UploadProblem::TooManyAttachments { max_attachments: old(self).max_attachments() },
            ),
            (name matches Some(n) && n@ == "file"@) && old(self).uploads().len()
                < old(self).max_attachments() && file_name is None ==> r == Err::<
                (),
                UploadProblem,
            >(UploadProblem::MissingFileName),
            (name matches Some(n) && n@ == "file"@) && old(self).uploads().len()
                < old(self).max_attachments() && file_name is Some ==> {
                &&& r is Ok
                &&& final(self).current() matches Some(c)
                &&& c.file_name == file_name->0
                &&& c.content_type@ == part_content_type(
                    match content_type {
                        Some(t) => Some(t@),
                        None => None,
                    },
                )
                &&& c.content@.len() == 0
            },
            r is Err ==> final(self).current() is None,
    {
        let named_file = match name {
            Some(n) => text_equal(n, "file"),
            None => false,
        };
        if !named_file {
            return Err(UploadProblem::FieldNotNamedFile);
        }
        if self.uploads.len() >= self.max_attachments {
            return Err(UploadProblem::TooManyAttachments { max_attachments: self.max_attachments });
        }
        let file_name = match file_name {
            Some(f) => f,
            None => {
                return Err(UploadProblem::MissingFileName);
            },
        };
        let content_type = match content_type {
            Some(t) => {
                if t.as_str().is_empty() {
                    string_of(&chars_of("application/octet-stream"))
                } else {
                    t
                }
            },
            None => string_of(&chars_of("application/octet-stream")),
        };
        self.current = Some(CommentAttachmentUpload { file_name, content_type, content: Vec::new() });
        Ok(())
    }

    /// A chunk of the open part arrives: refused where it would take the
    /// file or the request over its limit.
    pub fn accept_chunk(&mut self, chunk: &[u8]) -> (r: Result<(), UploadProblem>)
        requires
            old(self).well_formed(),
            old(self).current() is Some,
        ensures
            final(self).well_formed(),
            final(self).max_attachment_size() == old(self).max_attachment_size(),
            final(self).max_attachments() == old(self).max_attachments(),
            final(self).uploads() == old(self).uploads(),
            final(self).current() matches Some(c) && c.file_name == old(self).current()->0.file_name
                && c.content_type == old(self).current()->0.content_type,
            ({
                let before = old(self).current()->0.content@;
                if chunk@.len() > old(self).max_attachment_size() - before.len() {
                    &&& r == Err::<(), UploadProblem>(
                        UploadProblem::AttachmentTooLarge {
                            max_attachment_size: old(self).max_attachment_size(),
                        },
                    )
                    &&& final(self).current() == old(self).current()
                    &&& final(self).received() == old(self).received()
                } else if chunk@.len() > old(self).max_request_size() - old(self).received() {
                    &&& r == Err::<(), UploadProblem>(UploadProblem::RequestTooLarge)
                    &&& final(self).current() == old(self).current()
                    &&& final(self).received() == old(self).received()
                } else {
                    &&& r is Ok
                    &&& final(self).current()->0.content@ == before + chunk@
                    &&& final(self).received() == old(self).received() + chunk@.len()
                }
            }),
    {
        let current = self.current.take();
        let mut file = match current {
            Some(f) => f,
            None => {
                return Err(UploadProblem::RequestTooLarge);
            },
        };
        if chunk.len() > self.max_attachment_size - file.content.len() {
            self.current = Some(file);
            return Err(
                UploadProblem::AttachmentTooLarge { max_attachment_size: self.max_attachment_size },
            );
        }
        if chunk.len() > self.max_request_size - self.received {
            self.current = Some(file);
            return Err(UploadProblem::RequestTooLarge);
        }
        let ghost before = file.content@;
        let ghost opened = file;
        let mut i: usize = 0;
        while i < chunk.len()
            invariant
                i <= chunk@.len(),
                file.file_name == opened.file_name,
                file.content_type == opened.content_type,
                file.content@ == before + chunk@.subrange(0, i as int),
            decreases chunk@.len() - i,
        {
            file.content.push(chunk[i]);
            i = i + 1;
            assert(file.content@ =~= before + chunk@.subrange(0, i as int));
        }
        assert(chunk@.subrange(0, chunk@.len() as int) =~= chunk@);
        self.received = self.received + chunk.len();
        self.current = Some(file);
        Ok(())
    }

    /// The open part ends: its file is read.
    pub fn end_part(&mut self)
        requires
            old(self).well_formed(),
            old(self).current() is Some,
        ensures
            final(self).well_formed(),
            final(self).max_attachment_size() == old(self).max_attachment_size(),
            final(self).max_attachments() == old(self).max_attachments(),
            final(self).uploads() == old(self).uploads().push(old(self).current()->0),
            final(self).current() is None,
            final(self).received() == old(self).received(),
    {
        let current = self.current.take();
        match current {
            Some(file) => {
                let ghost before = self.uploads@;
                self.uploads.push(file);
                assert(self.uploads@.drop_last() =~= before);
            },
            None => {},
        }
    }

    /// The body ends: the files read, which have to be at least one.
    pub fn finish(self) -> (r: Result<Vec<CommentAttachmentUpload>, UploadProblem>)
        requires
            self.well_formed(),
            self.current() is None,
        ensures
            self.uploads().len() == 0 ==> r == Err::<Vec<CommentAttachmentUpload>, UploadProblem>(
                UploadProblem::NoFile,
            ),
            self.uploads().len() > 0 ==> (r matches Ok(files) && files@ == self.uploads()),
    {
        if self.uploads.len() == 0 {
            return Err(UploadProblem::NoFile);
        }
        Ok(self.uploads)
    }

    /// Every file of a request that is read to its end keeps the limits: no
    /// more files than allowed, none over its size, the whole within the
    /// request's limit.
    pub proof fn lemma_uploads_within_limits(&self)
        requires
            self.well_formed(),
        ensures
            self.uploads().len() <= self.max_attachments(),
            forall|i: int|
                0 <= i < self.uploads().len() ==> #[trigger] self.uploads()[i].content@.len()
                    <= self.max_attachment_size(),
            total_size(self.uploads()) <= request_size_limit(
                self.max_attachment_size(),
                self.max_attachments(),
            ),
    {
    }
}

} // verus!
