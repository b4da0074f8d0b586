//! Where an attachment is downloaded from: its own URL only when that URL is
//! on the Redmine server itself, so that the API key is never sent anywhere
//! else.

use vstd::prelude::*;

use crate::numbers::{decimal_chars, decimal_text};
use crate::redmine::config::{is_blank, is_blank_text};
use crate::redmine::model::ImportError;
use crate::text::{append_chars, chars_of, opt_str, string_of};

verus! {

/// The text of the URL that `reqwest::Url::parse` reads from `text`, if it
/// reads one.
pub uninterp spec fn url_serialization(text: Seq<char>) -> Option<Seq<char>>;

/// Whether both texts are URLs with the same origin, as `reqwest::Url`
/// compares origins.
pub uninterp spec fn urls_share_origin(a: Seq<char>, b: Seq<char>) -> bool;

/// `reqwest::Url::parse`, followed by the URL's `to_string`.
#[verifier::external_body]
fn parse_url(text: &str) -> (r: Option<String>)
    ensures
        match r {
            Some(s) => url_serialization(text@) == Some(s@),
            None => url_serialization(text@) is None,
        },
{
    match reqwest::Url::parse(text) {
        Ok(url) => Some(url.to_string()),
        Err(_) => None,
    }
}

/// `reqwest::Url::origin` of both texts, compared; false where either text
/// is not a URL.
#[verifier::external_body]
fn same_origin(a: &str, b: &str) -> (r: bool)
    ensures
        r == urls_share_origin(a@, b@),
{
    match (reqwest::Url::parse(a), reqwest::Url::parse(b)) {
        (Ok(x), Ok(y)) => x.origin() == y.origin(),
        _ => false,
    }
}

/// The download path of an attachment: Redmine's own download path when the
/// attachment has no content URL, else its content URL, which has to be on
/// the server of `base_url`.
pub open spec fn attachment_path(
    base_url: Seq<char>,
    attachment_id: i64,
    content_url: Option<Seq<char>>,
) -> Result<Seq<char>, ImportError> {
    match content_url {
        Some(url) if !is_blank(url) => {
            if url_serialization(base_url) is None {
                Err(ImportError::InvalidBaseUrl)
            } else if url_serialization(url) is None {
                Err(ImportError::InvalidAttachmentUrl { attachment_id })
            } else if !urls_share_origin(base_url, url) {
                Err(ImportError::ForeignAttachmentUrl { attachment_id })
            } else {
                Ok(url_serialization(url)->0)
            }
        },
        _ => Ok("/attachments/download/"@ + decimal_text(attachment_id as int)),
    }
}

pub fn redmine_attachment_path(
    base_url: &str,
    attachment_id: i64,
    content_url: Option<&str>,
) -> (r: Result<String, ImportError>)
    ensures
        match attachment_path(base_url@, attachment_id, opt_str(content_url)) {
            Ok(p) => r matches Ok(s) && s@ == p,
            Err(e) => r == Err::<String, ImportError>(e),
        },
{
    let url = match content_url {
        Some(url) => {
            if is_blank_text(url) {
                None
            } else {
                Some(url)
            }
        },
        None => None,
    };
    match url {
        None => {
            let mut path = chars_of("/attachments/download/");
            append_chars(&mut path, &decimal_chars(attachment_id));
            Ok(string_of(&path))
        },
        Some(url) => {
            if parse_url(base_url).is_none() {
                return Err(ImportError::InvalidBaseUrl);
            }
            let parsed = match parse_url(url) {
                Some(parsed) => parsed,
                None => {
                    return Err(ImportError::InvalidAttachmentUrl { attachment_id });
                },
            };
            if !same_origin(base_url, url) {
                return Err(ImportError::ForeignAttachmentUrl { attachment_id });
            }
            Ok(parsed)
        },
    }
}

} // verus!
