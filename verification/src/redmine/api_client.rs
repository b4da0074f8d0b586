//! The decisions of the importer's HTTP clients: where a request goes,
//! which settings a client accepts, when a failed request is tried again,
//! and what a download may hold.

use vstd::prelude::*;

use crate::lookup::no_repeats;
use crate::redmine::config::{is_blank, is_blank_text};
use crate::redmine::model::{ImportError, RedmineAttachment};
use crate::redmine::paging::{retry_delay_millis, retry_delay_ms, retryable};
use crate::redmine::urls::{attachment_path, redmine_attachment_path};
use crate::text::{
    append_str, chars_of, starts_with, starts_with_exec, string_of, trim_trailing_slashes,
    trim_trailing_slashes_exec,
};

verus! {

/// Why a client's settings are refused.
#[derive(Debug, Clone, Copy, PartialEq, Eq, Structural)]
pub enum ClientSettingsError {
    EmptyBaseUrl,
    EmptyCredential,
    NoProjects,
    NonPositiveProjectId,
    DuplicateProjectId,
}

/// The base URL of a client: without its trailing slashes, and not blank.
pub open spec fn client_base_url(base_url: Seq<char>) -> Result<Seq<char>, ClientSettingsError> {
    let trimmed = trim_trailing_slashes(base_url);
    if is_blank(trimmed) {
        Err(ClientSettingsError::EmptyBaseUrl)
    } else {
        Ok(trimmed)
    }
}

pub fn api_base_url(base_url: &str) -> (r: Result<String, ClientSettingsError>)
    ensures
        match client_base_url(base_url@) {
            Ok(b) => r matches Ok(s) && s@ == b,
            Err(e) => r == Err::<String, ClientSettingsError>(e),
        },
{
    let trimmed = string_of(&trim_trailing_slashes_exec(base_url));
    if is_blank_text(trimmed.as_str()) {
        Err(ClientSettingsError::EmptyBaseUrl)
    } else {
        Ok(trimmed)
    }
}

/// The URL of a request: an absolute URL as it is, a path under the base
/// URL.
pub open spec fn request_url_text(base_url: Seq<char>, path: Seq<char>) -> Seq<char> {
    if starts_with(path, "http://"@) || starts_with(path, "https://"@) {
        path
    } else {
        base_url + path
    }
}

pub fn request_url(base_url: &str, path: &str) -> (r: String)
    ensures
        r@ == request_url_text(base_url@, path@),
{
    let chars = chars_of(path);
    if starts_with_exec(&chars, &chars_of("http://")) || starts_with_exec(
        &chars,
        &chars_of("https://"),
    ) {
        string_of(&chars)
    } else {
        let mut url = chars_of(base_url);
        append_str(&mut url, path);
        string_of(&url)
    }
}

/// The settings of the Redmine client: a base URL, an API key, and at least
/// one project, each with a positive ID of its own.
pub open spec fn redmine_settings_problem(
    base_url: Seq<char>,
    api_key: Seq<char>,
    project_ids: Seq<i64>,
) -> Option<ClientSettingsError> {
    if is_blank(base_url) {
        Some(ClientSettingsError::EmptyBaseUrl)
    } else if is_blank(api_key) {
        Some(ClientSettingsError::EmptyCredential)
    } else if project_ids.len() == 0 {
        Some(ClientSettingsError::NoProjects)
    } else if exists|i: int| 0 <= i < project_ids.len() && #[trigger] project_ids[i] <= 0 {
        Some(ClientSettingsError::NonPositiveProjectId)
    } else if !no_repeats(project_ids) {
        Some(ClientSettingsError::DuplicateProjectId)
    } else {
        None
    }
}

pub fn validate_redmine_settings(base_url: &str, api_key: &str, project_ids: &Vec<i64>) -> (r:
    Result<(), ClientSettingsError>)
    ensures
        match redmine_settings_problem(base_url@, api_key@, project_ids@) {
            Some(e) => r == Err::<(), ClientSettingsError>(e),
            None => r is Ok,
        },
{
    if is_blank_text(base_url) {
        return Err(ClientSettingsError::EmptyBaseUrl);
    }
    if is_blank_text(api_key) {
        return Err(ClientSettingsError::EmptyCredential);
    }
    if project_ids.len() == 0 {
        return Err(ClientSettingsError::NoProjects);
    }
    let mut i: usize = 0;
    while i < project_ids.len()
        invariant
            i <= project_ids@.len(),
            !is_blank(base_url@),
            !is_blank(api_key@),
            project_ids@.len() > 0,
            forall|k: int| 0 <= k < i ==> project_ids@[k] > 0,
        decreases project_ids@.len() - i,
    {
        if project_ids[i] <= 0 {
            assert(project_ids@[i as int] <= 0);
            return Err(ClientSettingsError::NonPositiveProjectId);
        }
        i = i + 1;
    }
    if !crate::lookup::ids_without_repeats(project_ids) {
        return Err(ClientSettingsError::DuplicateProjectId);
    }
    Ok(())
}

/// The settings of the portal client: a base URL and a session.
pub open spec fn portal_settings_problem(base_url: Seq<char>, session_id: Seq<char>) -> Option<
    ClientSettingsError,
> {
    if is_blank(base_url) {
        Some(ClientSettingsError::EmptyBaseUrl)
    } else if is_blank(session_id) {
        Some(ClientSettingsError::EmptyCredential)
    } else {
        None
    }
}

pub fn validate_portal_settings(base_url: &str, session_id: &str) -> (r: Result<
    (),
    ClientSettingsError,
>)
    ensures
        match portal_settings_problem(base_url@, session_id@) {
            Some(e) => r == Err::<(), ClientSettingsError>(e),
            None => r is Ok,
        },
{
    if is_blank_text(base_url) {
        return Err(ClientSettingsError::EmptyBaseUrl);
    }
    if is_blank_text(session_id) {
        return Err(ClientSettingsError::EmptyCredential);
    }
    Ok(())
}

/// How one attempt of a request ended.
#[derive(Debug, Clone, Copy, PartialEq, Eq, Structural)]
pub enum AttemptOutcome {
    /// No response came back.
    TransportError,
    /// A response with this status came back; `retry_after_seconds` is the
    /// server's `Retry-After` where it gave a number and it is heeded.
    Responded { status: u16, retry_after_seconds: Option<u64> },
}

/// What a client does after an attempt.
#[derive(Debug, Clone, Copy, PartialEq, Eq, Structural)]
pub enum RetryStep {
    /// The response is a success.
    Succeed,
    /// Try again after this many milliseconds.
    RetryAfterMillis(u64),
    /// Try again after this many seconds, as the server asked.
    RetryAfterSeconds(u64),
    /// Give up with the last failure.
    Fail,
}

/// After attempt number `attempt` (from zero) of at most `max_retries + 1`:
/// a 2xx response succeeds; a failure is tried again after the server's
/// `Retry-After` or the backoff delay, while attempts are left and the
/// failure is worth retrying (no response at all always is).
pub open spec fn retry_step(
    attempt: u32,
    max_retries: u32,
    outcome: AttemptOutcome,
    base_delay_ms: u64,
) -> RetryStep {
    match outcome {
        AttemptOutcome::TransportError => if attempt == max_retries {
            RetryStep::Fail
        } else {
            RetryStep::RetryAfterMillis(retry_delay_ms(attempt, base_delay_ms) as u64)
        },
        AttemptOutcome::Responded { status, retry_after_seconds } => if 200 <= status <= 299 {
            RetryStep::Succeed
        } else if !retryable(status) || attempt == max_retries {
            RetryStep::Fail
        } else {
            match retry_after_seconds {
                Some(s) => RetryStep::RetryAfterSeconds(s),
                None => RetryStep::RetryAfterMillis(retry_delay_ms(attempt, base_delay_ms) as u64),
            }
        },
    }
}

pub fn after_attempt(attempt: u32, max_retries: u32, outcome: AttemptOutcome, base_delay_ms: u64) -> (r:
    RetryStep)
    ensures
        r == retry_step(attempt, max_retries, outcome, base_delay_ms),
{
    match outcome {
        AttemptOutcome::TransportError => {
            if attempt == max_retries {
                RetryStep::Fail
            } else {
                RetryStep::RetryAfterMillis(retry_delay_millis(attempt, base_delay_ms))
            }
        },
        AttemptOutcome::Responded { status, retry_after_seconds } => {
            if 200 <= status && status <= 299 {
                RetryStep::Succeed
            } else if !crate::redmine::paging::is_retryable_status(status) || attempt
                == max_retries {
                RetryStep::Fail
            } else {
                match retry_after_seconds {
                    Some(s) => RetryStep::RetryAfterSeconds(s),
                    None => RetryStep::RetryAfterMillis(retry_delay_millis(attempt, base_delay_ms)),
                }
            }
        },
    }
}

/// A request is never tried more than `max_retries + 1` times: the last
/// attempt never asks for another.
pub proof fn lemma_last_attempt_never_retries(
    max_retries: u32,
    outcome: AttemptOutcome,
    base_delay_ms: u64,
)
    ensures
        retry_step(max_retries, max_retries, outcome, base_delay_ms) is Succeed || retry_step(
            max_retries,
            max_retries,
            outcome,
            base_delay_ms,
        ) is Fail,
{
}

/// What follows each attempt, stated by the response: a 2xx status
/// succeeds at any attempt; a status that is neither 2xx nor worth retrying
/// (a server error, 408 or 429) fails at once; a server error, 408 or 429,
/// and a missing response, are tried again while attempts are left, after
/// the server's `Retry-After` where it gave one and after the backoff delay
/// otherwise.
pub proof fn lemma_retry_follows_the_response(
    attempt: u32,
    max_retries: u32,
    status: u16,
    retry_after_seconds: Option<u64>,
    base_delay_ms: u64,
)
    ensures
        200 <= status <= 299 ==> retry_step(
            attempt,
            max_retries,
            AttemptOutcome::Responded { status, retry_after_seconds },
            base_delay_ms,
        ) == RetryStep::Succeed,
        !(200 <= status <= 299) && !(500 <= status <= 599 || status == 408 || status == 429)
            ==> retry_step(
            attempt,
            max_retries,
            AttemptOutcome::Responded { status, retry_after_seconds },
            base_delay_ms,
        ) == RetryStep::Fail,
        attempt < max_retries && (500 <= status <= 599 || status == 408 || status == 429)
            ==> retry_step(
            attempt,
            max_retries,
            AttemptOutcome::Responded { status, retry_after_seconds },
            base_delay_ms,
        ) == match retry_after_seconds {
            Some(seconds) => RetryStep::RetryAfterSeconds(seconds),
            None => RetryStep::RetryAfterMillis(retry_delay_ms(attempt, base_delay_ms) as u64),
        },
        attempt < max_retries ==> retry_step(
            attempt,
            max_retries,
            AttemptOutcome::TransportError,
            base_delay_ms,
        ) == RetryStep::RetryAfterMillis(retry_delay_ms(attempt, base_delay_ms) as u64),
        attempt < max_retries ==> retry_delay_ms(attempt, base_delay_ms) <= u64::MAX,
{
}

/// Why a download is refused.
#[derive(Debug, Clone, Copy, PartialEq, Eq, Structural)]
pub enum DownloadError {
    /// The announced or received size is over the limit.
    TooLarge,
}

/// A download whose announced size is over `max_size` is refused before it
/// is read.
pub fn check_announced_size(content_length: Option<u64>, max_size: u64) -> (r: Result<
    (),
    DownloadError,
>)
    ensures
        (content_length matches Some(n) && n > max_size) ==> r == Err::<(), DownloadError>(
            DownloadError::TooLarge,
        ),
        !(content_length matches Some(n) && n > max_size) ==> r is Ok,
{
    match content_length {
        Some(n) => {
            if n > max_size {
                Err(DownloadError::TooLarge)
            } else {
                Ok(())
            }
        },
        None => Ok(()),
    }
}

/// The size after one more chunk, refused once it is over `max_size` (or
/// no longer fits in memory).
pub fn accept_chunk(received: usize, chunk_len: usize, max_size: u64) -> (r: Result<
    usize,
    DownloadError,
>)
    ensures
        match r {
            Ok(n) => n == received + chunk_len && n <= max_size,
            Err(_) => received + chunk_len > max_size || received + chunk_len > usize::MAX,
        },
{
    match received.checked_add(chunk_len) {
        Some(next) => {
            assert(next as u64 == next);
            if next as u64 > max_size {
                Err(DownloadError::TooLarge)
            } else {
                Ok(next)
            }
        },
        None => Err(DownloadError::TooLarge),
    }
}

/// The content type of a download: the response's, unless it is empty or
/// missing.
pub open spec fn content_type_of(header: Option<Seq<char>>) -> Seq<char> {
    match header {
        Some(h) => if h.len() == 0 {
            "application/octet-stream"@
        } else {
            h
        },
        None => "application/octet-stream"@,
    }
}

pub fn download_content_type(header: Option<String>) -> (r: String)
    ensures
        r@ == content_type_of(
            match header {
                Some(h) => Some(h@),
                None => None,
            },
        ),
{
    match header {
        Some(h) => {
            if h.as_str().is_empty() {
                string_of(&chars_of("application/octet-stream"))
            } else {
                h
            }
        },
        None => string_of(&chars_of("application/octet-stream")),
    }
}

/// Where an attachment is downloaded from, after the checks that need no
/// download: a positive ID and a size within `max_size`.
pub open spec fn download_source(
    base_url: Seq<char>,
    attachment: RedmineAttachment,
    max_size: u64,
) -> Result<Seq<char>, ImportError> {
    if attachment.id <= 0 {
        Err(ImportError::InvalidAttachmentId { attachment_id: attachment.id })
    } else if attachment.filesize matches Some(size) && size > max_size {
        Err(ImportError::AttachmentTooLarge { attachment_id: attachment.id })
    } else {
        attachment_path(
            base_url,
            attachment.id,
            match attachment.content_url {
                Some(u) => Some(u@),
                None => None,
            },
        )
    }
}

pub fn download_path(base_url: &str, attachment: &RedmineAttachment, max_size: u64) -> (r: Result<
    String,
    ImportError,
>)
    ensures
        match download_source(base_url@, *attachment, max_size) {
            Ok(p) => r matches Ok(s) && s@ == p,
            Err(e) => r == Err::<String, ImportError>(e),
        },
{
    if attachment.id <= 0 {
        return Err(ImportError::InvalidAttachmentId { attachment_id: attachment.id });
    }
    if let Some(size) = attachment.filesize {
        if size > max_size {
            return Err(ImportError::AttachmentTooLarge { attachment_id: attachment.id });
        }
    }
    let content_url: Option<&str> = match &attachment.content_url {
        Some(u) => Some(u.as_str()),
        None => None,
    };
    redmine_attachment_path(base_url, attachment.id, content_url)
}

/// A downloaded body has the size that the attachment's metadata gives,
/// where it gives one.
pub fn check_downloaded_size(attachment: &RedmineAttachment, content: &Vec<u8>) -> (r: Result<
    (),
    ImportError,
>)
    ensures
        match attachment.filesize {
            Some(size) => if size != content@.len() {
                r == Err::<(), ImportError>(
                    ImportError::FilesizeMismatch { attachment_id: attachment.id },
                )
            } else {
                r is Ok
            },
            None => r is Ok,
        },
{
    if let Some(size) = attachment.filesize {
        if size != content.len() as u64 {
            return Err(ImportError::FilesizeMismatch { attachment_id: attachment.id });
        }
    }
    Ok(())
}

} // verus!
