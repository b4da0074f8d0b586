//! The bot check in front of the two routes that anyone may call: which
//! action a request has to prove, which tokens are looked at, and what the
//! verifier's answer leads to.

use vstd::prelude::*;

use crate::lookup::{contains_text, texts};
use crate::text::{ascii_lowercase, ascii_lowercase_of, chars_of, string_of, text_equal};
use crate::web::paths::{
    api_path_segments, path_segments, path_without_api_prefix, segment_is, RequestMethod,
};
use crate::web::problem::Problem;

verus! {

pub const MAX_TOKEN_LENGTH: usize = 2048;

pub const TURNSTILE_TOKEN_HEADER: &'static str = "x-seichi-turnstile-token";

/// The action that a verification token has to be issued for.
#[derive(Debug, Clone, Copy, PartialEq, Eq, Structural)]
pub enum TurnstileAction {
    SessionCreate,
    TemporaryAnswer,
}

impl TurnstileAction {
    pub open spec fn spec_as_str(self) -> Seq<char> {
        match self {
            TurnstileAction::SessionCreate => "session-create"@,
            TurnstileAction::TemporaryAnswer => "temporary-answer"@,
        }
    }

    pub fn as_str(self) -> (r: &'static str)
        ensures
            r@ == self.spec_as_str(),
    {
        match self {
            TurnstileAction::SessionCreate => "session-create",
            TurnstileAction::TemporaryAnswer => "temporary-answer",
        }
    }
}

/// The action that a request has to prove: creating a session, or
/// answering a form as a temporary user; other requests need none.
pub open spec fn turnstile_action(method: RequestMethod, path: Seq<char>) -> Option<TurnstileAction> {
    if method != RequestMethod::Post {
        None
    } else {
        match path_without_api_prefix(path) {
            None => None,
            Some(p) => {
                let segments = path_segments(p);
                if segments == seq!["session"@] {
                    Some(TurnstileAction::SessionCreate)
                } else if segments.len() == 3 && segments[0] == "forms"@ && segments[2]
                    == "temporary-answers"@ {
                    Some(TurnstileAction::TemporaryAnswer)
                } else {
                    None
                }
            },
        }
    }
}

pub fn expected_action(method: RequestMethod, path: &str) -> (r: Option<TurnstileAction>)
    ensures
        r == turnstile_action(method, path@),
{
    if method != RequestMethod::Post {
        return None;
    }
    let segments = match api_path_segments(path) {
        Some(segments) => segments,
        None => {
            return None;
        },
    };
    let ghost segs = segments.deep_view();
    assert(forall|k: int| 0 <= k < segments@.len() ==> #[trigger] segs[k] == segments@[k]@);
    let n = segments.len();
    assert(segs.len() == n);
    proof {
        if n == 1 {
            assert(segs =~= seq![segs[0]]);
        }
    }
    if n == 1 && segment_is(&segments[0], "session") {
        return Some(TurnstileAction::SessionCreate);
    }
    assert(segs != seq!["session"@]);
    if n == 3 && segment_is(&segments[0], "forms") && segment_is(&segments[2], "temporary-answers") {
        return Some(TurnstileAction::TemporaryAnswer);
    }
    None
}

/// Whether a hostname is one of the allowed ones, compared without ASCII
/// case; the allowed hostnames are kept in lower case, and a pattern such as
/// `*.example.com` is taken literally.
pub fn allowed_hostname(hostname: &str, allowed_hostnames: &Vec<String>) -> (r: bool)
    ensures
        r == texts(allowed_hostnames@).contains(ascii_lowercase(hostname@)),
{
    let lowered = string_of(&ascii_lowercase_of(&chars_of(hostname)));
    contains_text(allowed_hostnames, lowered.as_str())
}

/// The allowed hostnames as they are kept: in lower case.
pub fn normalize_allowed_hostnames(hostnames: Vec<String>) -> (r: Vec<String>)
    ensures
        r@.len() == hostnames@.len(),
        forall|i: int| 0 <= i < r@.len() ==> #[trigger] r@[i]@ == ascii_lowercase(hostnames@[i]@),
{
    let mut r: Vec<String> = Vec::new();
    let mut i: usize = 0;
    while i < hostnames.len()
        invariant
            i <= hostnames@.len(),
            r@.len() == i,
            forall|k: int| 0 <= k < i ==> #[trigger] r@[k]@ == ascii_lowercase(hostnames@[k]@),
        decreases hostnames@.len() - i,
    {
        r.push(string_of(&ascii_lowercase_of(&chars_of(hostnames[i].as_str()))));
        i = i + 1;
    }
    r
}

/// The token that a request carries, if it is usable: present, not empty,
/// and at most `MAX_TOKEN_LENGTH` bytes long.
pub open spec fn usable_token(token: Option<&str>) -> bool {
    match token {
        Some(t) => t@.len() > 0 && t.len() <= MAX_TOKEN_LENGTH,
        None => false,
    }
}

pub fn token_is_usable(token: Option<&str>) -> (r: bool)
    ensures
        r == usable_token(token),
{
    match token {
        Some(t) => !t.is_empty() && t.len() <= MAX_TOKEN_LENGTH,
        None => false,
    }
}

/// What the verification service answered for a token.
#[derive(Debug, Clone, PartialEq, Eq)]
pub enum TurnstileOutcome {
    /// The token is valid and was issued for this action on this hostname.
    Accepted { action: Option<String>, hostname: Option<String> },
    /// The token is not valid.
    Rejected,
    /// The service cannot be reached.
    Unavailable,
    /// The service answered something that cannot be read.
    InvalidResponse,
}

/// What the check does with a request.
#[derive(Debug, Clone, Copy, PartialEq, Eq, Structural)]
pub enum TurnstileVerdict {
    Pass,
    Forbidden,
    Unavailable,
}

/// The verdict on a verified token: a service that cannot answer makes the
/// route unavailable; a token passes only when it was accepted for the
/// expected action on an allowed hostname.
pub open spec fn turnstile_verdict(
    expected: TurnstileAction,
    outcome: TurnstileOutcome,
    allowed_hostnames: Seq<Seq<char>>,
) -> TurnstileVerdict {
    match outcome {
        TurnstileOutcome::Unavailable => TurnstileVerdict::Unavailable,
        TurnstileOutcome::InvalidResponse => TurnstileVerdict::Unavailable,
        TurnstileOutcome::Rejected => TurnstileVerdict::Forbidden,
        TurnstileOutcome::Accepted { action, hostname } => {
            if (action matches Some(a) && a@ == expected.spec_as_str()) && (hostname matches Some(
                h,
            ) && allowed_hostnames.contains(ascii_lowercase(h@))) {
                TurnstileVerdict::Pass
            } else {
                TurnstileVerdict::Forbidden
            }
        },
    }
}

pub fn verdict(
    expected: TurnstileAction,
    outcome: &TurnstileOutcome,
    allowed_hostnames: &Vec<String>,
) -> (r: TurnstileVerdict)
    ensures
        r == turnstile_verdict(expected, *outcome, texts(allowed_hostnames@)),
{
    match outcome {
        TurnstileOutcome::Unavailable => TurnstileVerdict::Unavailable,
        TurnstileOutcome::InvalidResponse => TurnstileVerdict::Unavailable,
        TurnstileOutcome::Rejected => TurnstileVerdict::Forbidden,
        TurnstileOutcome::Accepted { action, hostname } => {
            let action_matches = match action {
                Some(a) => text_equal(a.as_str(), expected.as_str()),
                None => false,
            };
            let host_allowed = match hostname {
                Some(h) => allowed_hostname(h.as_str(), allowed_hostnames),
                None => false,
            };
            if action_matches && host_allowed {
                TurnstileVerdict::Pass
            } else {
                TurnstileVerdict::Forbidden
            }
        },
    }
}

/// The answer to a request that fails the check.
pub fn forbidden_problem() -> (p: Problem)
    ensures
        p@ == (403u16, "Forbidden"@, "Turnstile verification failed."@,
        "TURNSTILE_VERIFICATION_FAILED"@),
{
    Problem::new(403, "Forbidden", "Turnstile verification failed.", "TURNSTILE_VERIFICATION_FAILED")
}

/// The answer to a request when the verification service cannot answer.
pub fn unavailable_problem() -> (p: Problem)
    ensures
        p@ == (503u16, "Service Unavailable"@, "Turnstile verification service is unavailable."@,
        "TURNSTILE_UNAVAILABLE"@),
{
    Problem::new(
        503,
        "Service Unavailable",
        "Turnstile verification service is unavailable.",
        "TURNSTILE_UNAVAILABLE",
    )
}

/// What the check does with a request before any token is verified.
#[derive(Debug, Clone, Copy, PartialEq, Eq, Structural)]
pub enum TurnstileStep {
    /// The route is not checked, or the check is switched off.
    Pass,
    /// The request carries no usable token.
    Forbidden,
    /// The token is to be verified for this action.
    Verify(TurnstileAction),
}

/// A route without an action, or a switched-off check, lets the request
/// through; otherwise a usable token is needed, and is verified.
pub open spec fn turnstile_step_for(
    method: RequestMethod,
    path: Seq<char>,
    enabled: bool,
    token: Option<&str>,
) -> TurnstileStep {
    match turnstile_action(method, path) {
        None => TurnstileStep::Pass,
        Some(action) => if !enabled {
            TurnstileStep::Pass
        } else if !usable_token(token) {
            TurnstileStep::Forbidden
        } else {
            TurnstileStep::Verify(action)
        },
    }
}

pub fn turnstile_step(method: RequestMethod, path: &str, enabled: bool, token: Option<&str>) -> (r:
    TurnstileStep)
    ensures
        r == turnstile_step_for(method, path@, enabled, token),
{
    match expected_action(method, path) {
        None => TurnstileStep::Pass,
        Some(action) => {
            if !enabled {
                TurnstileStep::Pass
            } else if !token_is_usable(token) {
                TurnstileStep::Forbidden
            } else {
                TurnstileStep::Verify(action)
            }
        },
    }
}

} // verus!
