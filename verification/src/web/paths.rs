//! Request methods and the paths of the versioned API, as the request
//! middlewares read them.

use vstd::prelude::*;

use crate::text::{chars_of, occurs_at, starts_with, starts_with_exec, text_equal};
use crate::tokens::{runs, runs_exec, TokenClass};

verus! {

/// The method of an HTTP request.
#[derive(Clone, Copy, Debug, PartialEq, Eq, Structural)]
pub enum RequestMethod {
    Get,
    Head,
    Post,
    Put,
    Delete,
    Connect,
    Options,
    Trace,
    Patch,
    /// An extension method.
    Other,
}

/// The prefix under which the API is served.
pub open spec fn api_prefix() -> Seq<char> {
    "/api/v1"@
}

/// The path relative to the API: the request path without the API prefix
/// where it has one, or as it is where it is already relative. A path that
/// only looks like the prefix (`/api/v10`) and a path that does not start
/// with `/` are none of the API's.
pub open spec fn path_without_api_prefix(path: Seq<char>) -> Option<Seq<char>> {
    let prefix = api_prefix();
    if path == prefix {
        Some(seq!['/'])
    } else if starts_with(path, prefix) {
        let rest = path.subrange(prefix.len() as int, path.len() as int);
        if rest.len() > 0 && rest[0] == '/' {
            Some(rest)
        } else {
            None
        }
    } else if path.len() > 0 && path[0] == '/' {
        Some(path)
    } else {
        None
    }
}

/// The non-empty segments of a path.
pub open spec fn path_segments(path: Seq<char>) -> Seq<Seq<char>> {
    runs(path, TokenClass::PathSegment)
}

pub fn request_path_without_api_prefix(path: &str) -> (r: Option<&str>)
    ensures
        match path_without_api_prefix(path@) {
            Some(p) => r matches Some(s) && s@ == p,
            None => r is None,
        },
{
    let prefix = "/api/v1";
    if text_equal(path, prefix) {
        let root = "/";
        proof {
            reveal_strlit("/");
        }
        return Some(root);
    }
    let chars = chars_of(path);
    let prefix_chars = chars_of(prefix);
    if starts_with_exec(&chars, &prefix_chars) {
        let n = chars.len();
        let k = prefix_chars.len();
        if n > k && chars[k] == '/' {
            let rest = path.substring_char(k, n);
            Some(rest)
        } else {
            None
        }
    } else if chars.len() > 0 && chars[0] == '/' {
        Some(path)
    } else {
        None
    }
}

/// The non-empty segments of the path relative to the API, if the path is
/// one of the API's.
pub fn api_path_segments(path: &str) -> (r: Option<Vec<Vec<char>>>)
    ensures
        match path_without_api_prefix(path@) {
            Some(p) => r matches Some(segments) && segments.deep_view() == path_segments(p),
            None => r is None,
        },
{
    match request_path_without_api_prefix(path) {
        Some(relative) => Some(runs_exec(&chars_of(relative), TokenClass::PathSegment)),
        None => None,
    }
}

/// Whether a segment holds exactly `text`.
pub fn segment_is(segment: &Vec<char>, text: &str) -> (r: bool)
    ensures
        r == (segment@ == text@),
{
    crate::text::seq_equal(segment, &chars_of(text))
}

} // verus!
