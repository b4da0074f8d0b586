//! Which quotas a request uses: the rate-limit plan of each route, the keys
//! and limits of its quotas, the client address that anonymous quotas are
//! counted against, and what the middleware answers once the quota store
//! has decided.

use vstd::prelude::*;

use crate::text::{append_chars, append_str, chars_of, opt_str, string_of, text_equal};
use crate::uuid_text::{parse_uuid, uuid_hyphenated_text, uuid_parse_str, uuid_to_string};
use crate::web::paths::{
    api_path_segments, path_segments, path_without_api_prefix, segment_is, RequestMethod,
};
use crate::web::problem::Problem;
use crate::tokens::{in_class, lemma_run_end, run_end, runs_from, TokenClass};

verus! {

pub const ANONYMOUS_GET_LIMIT: u64 = 60;
pub const AUTHENTICATED_GET_LIMIT: u64 = 600;
pub const AUTHENTICATED_WRITE_LIMIT: u64 = 120;
pub const TEMPORARY_IP_HOURLY_LIMIT: u64 = 30;
pub const TEMPORARY_FORM_HOURLY_LIMIT: u64 = 10;
pub const TEMPORARY_IP_BURST_LIMIT: u64 = 5;
pub const SESSION_CREATE_IP_HOURLY_LIMIT: u64 = 10;
pub const MINUTE: u64 = 60;
pub const HOUR: u64 = 3600;

pub const PROXY_SECRET_HEADER: &'static str = "x-seichi-proxy-secret";
pub const CLIENT_IP_HEADER: &'static str = "x-seichi-client-ip";

/// An IP address, in the canonical text in which the standard library
/// writes it.
#[derive(Debug, PartialEq, Eq)]
pub struct IpAddress {
    pub canonical: String,
}

impl Clone for IpAddress {
    fn clone(&self) -> (copy: Self)
        ensures
            copy == *self,
    {
        IpAddress { canonical: self.canonical.clone() }
    }
}

/// Whom a quota is counted against.
#[derive(Debug, Clone, PartialEq, Eq)]
pub enum RateLimitIdentity {
    User(String),
    Ip(IpAddress),
}

/// The address that may be used for an anonymous quota, and where it came
/// from.
#[derive(Debug, Clone, PartialEq, Eq)]
pub enum ClientIpResolution {
    Canonical(IpAddress),
    TcpPeer(IpAddress),
    Unavailable,
}

/// The address that an anonymous quota is counted against. The address that
/// the proxy forwards is trusted only when a shared secret is configured,
/// the request carries it, and the forwarded address is a valid one
/// (`client_ip` is none where it is missing or malformed); otherwise the
/// TCP peer's address is used, where there is one.
pub open spec fn client_ip(
    proxy_secret_header: Option<Seq<char>>,
    client_ip: Option<IpAddress>,
    tcp_peer: Option<IpAddress>,
    proxy_secret: Option<Seq<char>>,
) -> ClientIpResolution {
    let trusted = proxy_secret is Some && proxy_secret_header == proxy_secret;
    if trusted && client_ip is Some {
        ClientIpResolution::Canonical(client_ip->0)
    } else {
        match tcp_peer {
            Some(ip) => ClientIpResolution::TcpPeer(ip),
            None => ClientIpResolution::Unavailable,
        }
    }
}

pub fn resolve_client_ip(
    proxy_secret_header: Option<&str>,
    client_ip_header: Option<IpAddress>,
    tcp_peer: Option<IpAddress>,
    proxy_secret: Option<&str>,
) -> (r: ClientIpResolution)
    ensures
        r == client_ip(
            opt_str(proxy_secret_header),
            client_ip_header,
            tcp_peer,
            opt_str(proxy_secret),
        ),
{
    let trusted = match (proxy_secret, proxy_secret_header) {
        (Some(expected), Some(actual)) => text_equal(actual, expected),
        _ => false,
    };
    if trusted {
        if let Some(ip) = client_ip_header {
            return ClientIpResolution::Canonical(ip);
        }
    }
    match tcp_peer {
        Some(ip) => ClientIpResolution::TcpPeer(ip),
        None => ClientIpResolution::Unavailable,
    }
}

/// Which quotas a request uses.
#[derive(Debug, Clone, PartialEq, Eq)]
pub enum RateLimitPlan {
    AnonymousGet { ip: IpAddress },
    AuthenticatedGet { user_id: String },
    AuthenticatedWrite { user_id: String },
    TemporaryAnswer { ip: IpAddress, form_id: u128 },
    SessionCreate { ip: IpAddress },
    Skip,
}

/// A quota: at most `limit` requests per `window_seconds` under `key`.
#[derive(Debug, Clone, PartialEq, Eq)]
pub struct RateLimitQuota {
    pub key: String,
    pub limit: u64,
    pub window_seconds: u64,
}

pub open spec fn quota_view(q: RateLimitQuota) -> (Seq<char>, u64, u64) {
    (q.key@, q.limit, q.window_seconds)
}

pub open spec fn quotas_view(qs: Seq<RateLimitQuota>) -> Seq<(Seq<char>, u64, u64)> {
    qs.map_values(|q: RateLimitQuota| quota_view(q))
}

pub open spec fn plan_label(plan: RateLimitPlan) -> Seq<char> {
    match plan {
        RateLimitPlan::AnonymousGet { .. } => "anonymous_get"@,
        RateLimitPlan::AuthenticatedGet { .. } => "authenticated_get"@,
        RateLimitPlan::AuthenticatedWrite { .. } => "authenticated_write"@,
        RateLimitPlan::TemporaryAnswer { .. } => "temporary_answer"@,
        RateLimitPlan::SessionCreate { .. } => "session_create"@,
        RateLimitPlan::Skip => "skip"@,
    }
}

/// The quotas of a plan: key, limit and window.
pub open spec fn plan_quotas(plan: RateLimitPlan) -> Seq<(Seq<char>, u64, u64)> {
    match plan {
        RateLimitPlan::AnonymousGet { ip } => seq![
            ("rl:v1:anon:get:"@ + ip.canonical@, ANONYMOUS_GET_LIMIT, MINUTE),
        ],
        RateLimitPlan::AuthenticatedGet { user_id } => seq![
            ("rl:v1:user:get:"@ + user_id@, AUTHENTICATED_GET_LIMIT, MINUTE),
        ],
        RateLimitPlan::AuthenticatedWrite { user_id } => seq![
            ("rl:v1:user:write:"@ + user_id@, AUTHENTICATED_WRITE_LIMIT, MINUTE),
        ],
        RateLimitPlan::TemporaryAnswer { ip, form_id } => seq![
            ("rl:v1:temporary:ip:"@ + ip.canonical@, TEMPORARY_IP_HOURLY_LIMIT, HOUR),
            (
                "rl:v1:temporary:form:"@ + ip.canonical@ + ":"@ + uuid_hyphenated_text(form_id),
                TEMPORARY_FORM_HOURLY_LIMIT,
                HOUR,
            ),
            ("rl:v1:temporary:burst:"@ + ip.canonical@, TEMPORARY_IP_BURST_LIMIT, 600u64),
        ],
        RateLimitPlan::SessionCreate { ip } => seq![
            ("rl:v1:session:create:"@ + ip.canonical@, SESSION_CREATE_IP_HOURLY_LIMIT, HOUR),
        ],
        RateLimitPlan::Skip => Seq::empty(),
    }
}

fn quota(prefix: &str, rest: &str, limit: u64, window_seconds: u64) -> (q: RateLimitQuota)
    ensures
        quota_view(q) == (prefix@ + rest@, limit, window_seconds),
{
    let mut key: Vec<char> = chars_of(prefix);
    append_str(&mut key, rest);
    RateLimitQuota { key: string_of(&key), limit, window_seconds }
}

impl RateLimitPlan {
    pub fn label(&self) -> (r: &'static str)
        ensures
            r@ == plan_label(*self),
    {
        match self {
            RateLimitPlan::AnonymousGet { .. } => "anonymous_get",
            RateLimitPlan::AuthenticatedGet { .. } => "authenticated_get",
            RateLimitPlan::AuthenticatedWrite { .. } => "authenticated_write",
            RateLimitPlan::TemporaryAnswer { .. } => "temporary_answer",
            RateLimitPlan::SessionCreate { .. } => "session_create",
            RateLimitPlan::Skip => "skip",
        }
    }

    pub fn quotas(&self) -> (r: Vec<RateLimitQuota>)
        ensures
            quotas_view(r@) == plan_quotas(*self),
    {
        let mut quotas: Vec<RateLimitQuota> = Vec::new();
        match self {
            RateLimitPlan::AnonymousGet { ip } => {
                quotas.push(
                    quota("rl:v1:anon:get:", ip.canonical.as_str(), ANONYMOUS_GET_LIMIT, MINUTE),
                );
            },
            RateLimitPlan::AuthenticatedGet { user_id } => {
                quotas.push(
                    quota("rl:v1:user:get:", user_id.as_str(), AUTHENTICATED_GET_LIMIT, MINUTE),
                );
            },
            RateLimitPlan::AuthenticatedWrite { user_id } => {
                quotas.push(
                    quota(
                        "rl:v1:user:write:",
                        user_id.as_str(),
                        AUTHENTICATED_WRITE_LIMIT,
                        MINUTE,
                    ),
                );
            },
            RateLimitPlan::TemporaryAnswer { ip, form_id } => {
                quotas.push(
                    quota(
                        "rl:v1:temporary:ip:",
                        ip.canonical.as_str(),
                        TEMPORARY_IP_HOURLY_LIMIT,
                        HOUR,
                    ),
                );
                let mut rest: Vec<char> = chars_of(ip.canonical.as_str());
                append_str(&mut rest, ":");
                let id = uuid_to_string(*form_id);
                append_str(&mut rest, id.as_str());
                let rest = string_of(&rest);
                assert("rl:v1:temporary:form:"@ + rest@ =~= "rl:v1:temporary:form:"@
                    + ip.canonical@ + ":"@ + uuid_hyphenated_text(*form_id));
                quotas.push(
                    quota(
                        "rl:v1:temporary:form:",
                        rest.as_str(),
                        TEMPORARY_FORM_HOURLY_LIMIT,
                        HOUR,
                    ),
                );
                quotas.push(
                    quota(
                        "rl:v1:temporary:burst:",
                        ip.canonical.as_str(),
                        TEMPORARY_IP_BURST_LIMIT,
                        10 * MINUTE,
                    ),
                );
            },
            RateLimitPlan::SessionCreate { ip } => {
                quotas.push(
                    quota(
                        "rl:v1:session:create:",
                        ip.canonical.as_str(),
                        SESSION_CREATE_IP_HOURLY_LIMIT,
                        HOUR,
                    ),
                );
            },
            RateLimitPlan::Skip => {},
        }
        assert(quotas_view(quotas@) =~= plan_quotas(*self));
        quotas
    }
}

/// Why no plan can be given to a request.
#[derive(Debug, Clone, PartialEq, Eq)]
pub enum RateLimitPolicyError {
    /// The route counts against the user, but no user is signed in.
    MissingAuthenticatedIdentity,
}

/// The plan of a request, from its method, its path and the identity that
/// the authentication layer established. Reading a form or the form list
/// counts against the user or the address; answering a form as a temporary
/// user, against the address and the form; creating a session, against the
/// address; ending one, against the user, who has to be signed in; anything
/// else a signed-in user does, against the user. Preflight requests and
/// paths outside the API use no quota.
pub open spec fn rate_limit_policy(
    method: RequestMethod,
    path: Seq<char>,
    identity: Option<RateLimitIdentity>,
) -> Result<RateLimitPlan, RateLimitPolicyError> {
    if method == RequestMethod::Options {
        Ok(RateLimitPlan::Skip)
    } else {
        match path_without_api_prefix(path) {
            None => Ok(RateLimitPlan::Skip),
            Some(p) => {
                let segments = path_segments(p);
                if method == RequestMethod::Get && 1 <= segments.len() <= 2 && segments[0]
                    == "forms"@ {
                    Ok(
                        match identity {
                            Some(RateLimitIdentity::User(user_id)) => RateLimitPlan::AuthenticatedGet {
                                user_id,
                            },
                            Some(RateLimitIdentity::Ip(ip)) => RateLimitPlan::AnonymousGet { ip },
                            None => RateLimitPlan::Skip,
                        },
                    )
                } else if method == RequestMethod::Post && segments.len() == 3 && segments[0]
                    == "forms"@ && segments[2] == "temporary-answers"@ {
                    Ok(
                        match identity {
                            Some(RateLimitIdentity::Ip(ip)) => match uuid_parse_str(segments[1]) {
                                Some(form_id) => RateLimitPlan::TemporaryAnswer { ip, form_id },
                                None => RateLimitPlan::Skip,
                            },
                            _ => RateLimitPlan::Skip,
                        },
                    )
                } else if segments == seq!["session"@] {
                    match method {
                        RequestMethod::Post => Ok(
                            match identity {
                                Some(RateLimitIdentity::Ip(ip)) => RateLimitPlan::SessionCreate {
                                    ip,
                                },
                                _ => RateLimitPlan::Skip,
                            },
                        ),
                        RequestMethod::Delete => match identity {
                            Some(RateLimitIdentity::User(user_id)) => Ok(
                                RateLimitPlan::AuthenticatedWrite { user_id },
                            ),
                            _ => Err(RateLimitPolicyError::MissingAuthenticatedIdentity),
                        },
                        _ => Ok(RateLimitPlan::Skip),
                    }
                } else {
                    match identity {
                        Some(RateLimitIdentity::User(user_id)) => Ok(
                            if method == RequestMethod::Get {
                                RateLimitPlan::AuthenticatedGet { user_id }
                            } else {
                                RateLimitPlan::AuthenticatedWrite { user_id }
                            },
                        ),
                        _ => Ok(RateLimitPlan::Skip),
                    }
                }
            },
        }
    }
}

/// A request without an established identity never uses a user's quota:
/// it uses none, or is refused where the route needs a user.
pub proof fn lemma_unidentified_requests_use_no_user_quota(method: RequestMethod, path: Seq<char>)
    ensures
        rate_limit_policy(method, path, None) == Ok::<RateLimitPlan, RateLimitPolicyError>(
            RateLimitPlan::Skip,
        ) || rate_limit_policy(method, path, None) == Err::<RateLimitPlan, RateLimitPolicyError>(
            RateLimitPolicyError::MissingAuthenticatedIdentity,
        ),
{
}

/// The only request that cannot be given a plan is ending a session without
/// a signed-in user; preflight requests never use a quota.
pub proof fn lemma_policy_refuses_only_anonymous_session_end(
    method: RequestMethod,
    path: Seq<char>,
    identity: Option<RateLimitIdentity>,
)
    ensures
        rate_limit_policy(method, path, identity) is Err ==> {
            &&& method == RequestMethod::Delete
            &&& path_without_api_prefix(path) is Some
            &&& path_segments(path_without_api_prefix(path)->0) == seq!["session"@]
            &&& !(identity matches Some(RateLimitIdentity::User(_)))
        },
        method == RequestMethod::Options ==> rate_limit_policy(method, path, identity) == Ok::<
            RateLimitPlan,
            RateLimitPolicyError,
        >(RateLimitPlan::Skip),
{
}

pub open spec fn opt_identity(identity: Option<&RateLimitIdentity>) -> Option<RateLimitIdentity> {
    match identity {
        Some(i) => Some(*i),
        None => None,
    }
}

/// The plan of a request. The identity is given only after authentication
/// has run, so that invalid credentials keep their own answer and never use
/// up a user's quota.
pub fn policy_for(method: RequestMethod, path: &str, identity: Option<&RateLimitIdentity>) -> (r:
    Result<RateLimitPlan, RateLimitPolicyError>)
    ensures
        r == rate_limit_policy(method, path@, opt_identity(identity)),
{
    if method == RequestMethod::Options {
        return Ok(RateLimitPlan::Skip);
    }
    let segments = match api_path_segments(path) {
        Some(segments) => segments,
        None => {
            return Ok(RateLimitPlan::Skip);
        },
    };
    let ghost segs = segments.deep_view();
    assert(forall|k: int| 0 <= k < segments@.len() ==> #[trigger] segs[k] == segments@[k]@);
    let n = segments.len();
    if method == RequestMethod::Get && n >= 1 && n <= 2 && segment_is(&segments[0], "forms") {
        return Ok(
            match identity {
                Some(RateLimitIdentity::User(user_id)) => RateLimitPlan::AuthenticatedGet {
                    user_id: user_id.clone(),
                },
                Some(RateLimitIdentity::Ip(ip)) => RateLimitPlan::AnonymousGet { ip: ip.clone() },
                None => RateLimitPlan::Skip,
            },
        );
    }
    if method == RequestMethod::Post && n == 3 && segment_is(&segments[0], "forms") && segment_is(
        &segments[2],
        "temporary-answers",
    ) {
        return Ok(
            match identity {
                Some(RateLimitIdentity::Ip(ip)) => {
                    let id_text = string_of(&segments[1]);
                    match parse_uuid(id_text.as_str()) {
                        Some(form_id) => RateLimitPlan::TemporaryAnswer { ip: ip.clone(), form_id },
                        None => RateLimitPlan::Skip,
                    }
                },
                _ => RateLimitPlan::Skip,
            },
        );
    }
    let is_session = n == 1 && segment_is(&segments[0], "session");
    proof {
        if n == 1 {
            assert(segs =~= seq![segs[0]]);
        }
    }
    if is_session {
        return match method {
            RequestMethod::Post => Ok(
                match identity {
                    Some(RateLimitIdentity::Ip(ip)) => RateLimitPlan::SessionCreate { ip: ip.clone() },
                    _ => RateLimitPlan::Skip,
                },
            ),
            RequestMethod::Delete => match identity {
                Some(RateLimitIdentity::User(user_id)) => Ok(
                    RateLimitPlan::AuthenticatedWrite { user_id: user_id.clone() },
                ),
                _ => Err(RateLimitPolicyError::MissingAuthenticatedIdentity),
            },
            _ => Ok(RateLimitPlan::Skip),
        };
    }
    assert(path_without_api_prefix(path@) is Some);
    assert(segs == path_segments(path_without_api_prefix(path@)->0));
    assert(segs != seq!["session"@]);
    assert(!(method == RequestMethod::Get && 1 <= segs.len() <= 2 && segs[0] == "forms"@));
    assert(!(method == RequestMethod::Post && segs.len() == 3 && segs[0] == "forms"@ && segs[2]
        == "temporary-answers"@));
    match identity {
        Some(RateLimitIdentity::User(user_id)) => Ok(
            if method == RequestMethod::Get {
                RateLimitPlan::AuthenticatedGet { user_id: user_id.clone() }
            } else {
                RateLimitPlan::AuthenticatedWrite { user_id: user_id.clone() }
            },
        ),
        _ => Ok(RateLimitPlan::Skip),
    }
}

/// What the quota store decided for a request.
#[derive(Debug, Clone, Copy, PartialEq, Eq)]
pub struct RateLimitDecision {
    pub allowed: bool,
    pub retry_after_seconds: u64,
    pub remaining: u64,
    pub limit: u64,
    pub reset_seconds: u64,
}

/// The rate-limit headers of a response: limit, remaining, reset, and
/// `Retry-After` for a refused request.
#[derive(Debug, Clone, Copy, PartialEq, Eq)]
pub struct RateLimitHeaders {
    pub limit: u64,
    pub remaining: u64,
    pub reset: u64,
    pub retry_after: Option<u64>,
}

pub open spec fn at_least_one(n: u64) -> u64 {
    if n < 1 {
        1
    } else {
        n
    }
}

/// The headers for a decision: times of at least one second, the reset of a
/// refused request being its retry time.
pub open spec fn headers_for(decision: RateLimitDecision) -> RateLimitHeaders {
    let retry_after = at_least_one(decision.retry_after_seconds);
    RateLimitHeaders {
        limit: decision.limit,
        remaining: decision.remaining,
        reset: if decision.allowed {
            at_least_one(decision.reset_seconds)
        } else {
            retry_after
        },
        retry_after: if decision.allowed {
            None
        } else {
            Some(retry_after)
        },
    }
}

pub fn rate_limit_headers(decision: RateLimitDecision) -> (r: RateLimitHeaders)
    ensures
        r == headers_for(decision),
{
    let retry_after = if decision.retry_after_seconds < 1 {
        1
    } else {
        decision.retry_after_seconds
    };
    let reset = if decision.allowed {
        if decision.reset_seconds < 1 {
            1
        } else {
            decision.reset_seconds
        }
    } else {
        retry_after
    };
    RateLimitHeaders {
        limit: decision.limit,
        remaining: decision.remaining,
        reset,
        retry_after: if decision.allowed {
            None
        } else {
            Some(retry_after)
        },
    }
}

/// What the quota store answered.
#[derive(Debug, Clone, Copy, PartialEq, Eq)]
pub enum StoreAnswer {
    Decided(RateLimitDecision),
    /// The store cannot be reached: requests are let through.
    Unavailable,
    /// The store answered something that is not a decision.
    Invalid,
}

/// What the middleware does with a request once the store has answered.
#[derive(Debug, Clone, PartialEq, Eq)]
pub enum RateLimitOutcome {
    /// Hand the request on, without rate-limit headers.
    Forward,
    /// Hand the request on and add these headers to its response.
    ForwardWithHeaders(RateLimitHeaders),
    /// Answer with this problem, with these headers if any.
    Respond(Problem, Option<RateLimitHeaders>),
}

pub open spec fn rate_limit_problem(status: u16, detail: Seq<char>, error_code: Seq<char>) -> (
    u16,
    Seq<char>,
    Seq<char>,
    Seq<char>,
) {
    (
        status,
        if status == 429 {
            "Too Many Requests"@
        } else {
            "Internal Server Error"@
        },
        detail,
        error_code,
    )
}

fn problem_of(status: u16, detail: &str, error_code: &str) -> (p: Problem)
    ensures
        p@ == rate_limit_problem(status, detail@, error_code@),
{
    let title = if status == 429 {
        "Too Many Requests"
    } else {
        "Internal Server Error"
    };
    Problem::new(status, title, detail, error_code)
}

/// The problem for a route that needs a signed-in user but has none.
pub fn policy_error_problem(error: RateLimitPolicyError) -> (p: Problem)
    ensures
        p@ == rate_limit_problem(
            500,
            "Rate-limit identity could not be resolved."@,
            "INTERNAL_SERVER_ERROR"@,
        ),
{
    match error {
        RateLimitPolicyError::MissingAuthenticatedIdentity => problem_of(
            500,
            "Rate-limit identity could not be resolved.",
            "INTERNAL_SERVER_ERROR",
        ),
    }
}

/// The outcome as a tag (0 forward, 1 forward with headers, 2 respond), the
/// problem, and the headers.
pub open spec fn outcome_for(answer: StoreAnswer) -> (
    u8,
    Option<(u16, Seq<char>, Seq<char>, Seq<char>)>,
    Option<RateLimitHeaders>,
) {
    match answer {
        StoreAnswer::Unavailable => (0, None, None),
        StoreAnswer::Invalid => (
            2,
            Some(
                rate_limit_problem(
                    500,
                    "Rate-limit store returned an invalid response."@,
                    "INTERNAL_SERVER_ERROR"@,
                ),
            ),
            None,
        ),
        StoreAnswer::Decided(decision) => if decision.allowed {
            (1, None, Some(headers_for(decision)))
        } else {
            (
                2,
                Some(
                    rate_limit_problem(
                        429,
                        "Request rate limit exceeded."@,
                        "RATE_LIMIT_EXCEEDED"@,
                    ),
                ),
                Some(headers_for(decision)),
            )
        },
    }
}

/// What to do with a request that has a plan, once the store has answered:
/// an unreachable store lets it through, an invalid answer is an internal
/// error, a refusal is answered with the retry time, and an allowed request
/// goes on with the rate-limit headers.
pub fn rate_limit_outcome(answer: StoreAnswer) -> (r: RateLimitOutcome)
    ensures
        r@ == outcome_for(answer),
{
    match answer {
        StoreAnswer::Unavailable => RateLimitOutcome::Forward,
        StoreAnswer::Invalid => RateLimitOutcome::Respond(
            problem_of(500, "Rate-limit store returned an invalid response.", "INTERNAL_SERVER_ERROR"),
            None,
        ),
        StoreAnswer::Decided(decision) => {
            if decision.allowed {
                RateLimitOutcome::ForwardWithHeaders(rate_limit_headers(decision))
            } else {
                RateLimitOutcome::Respond(
                    problem_of(429, "Request rate limit exceeded.", "RATE_LIMIT_EXCEEDED"),
                    Some(rate_limit_headers(decision)),
                )
            }
        },
    }
}

impl View for RateLimitOutcome {
    type V = (u8, Option<(u16, Seq<char>, Seq<char>, Seq<char>)>, Option<RateLimitHeaders>);

    open spec fn view(&self) -> (
        u8,
        Option<(u16, Seq<char>, Seq<char>, Seq<char>)>,
        Option<RateLimitHeaders>,
    ) {
        match self {
            RateLimitOutcome::Forward => (0, None, None),
            RateLimitOutcome::ForwardWithHeaders(h) => (1, None, Some(*h)),
            RateLimitOutcome::Respond(p, h) => (2, Some(p@), *h),
        }
    }
}

/// Whom a request's quotas are counted against: its signed-in user where
/// there is one, else its client address; the flag tells that neither was
/// found, so that the request goes unlimited.
pub fn rate_limit_identity(user_id: Option<String>, resolution: ClientIpResolution) -> (r: (
    Option<RateLimitIdentity>,
    bool,
))
    ensures
        match user_id {
            Some(id) => r == (Some(RateLimitIdentity::User(id)), false),
            None => match resolution {
                ClientIpResolution::Canonical(ip) => r == (Some(RateLimitIdentity::Ip(ip)), false),
                ClientIpResolution::TcpPeer(ip) => r == (Some(RateLimitIdentity::Ip(ip)), false),
                ClientIpResolution::Unavailable => r == (None::<RateLimitIdentity>, true),
            },
        },
{
    match user_id {
        Some(id) => (Some(RateLimitIdentity::User(id)), false),
        None => match resolution {
            ClientIpResolution::Canonical(ip) => (Some(RateLimitIdentity::Ip(ip)), false),
            ClientIpResolution::TcpPeer(ip) => (Some(RateLimitIdentity::Ip(ip)), false),
            ClientIpResolution::Unavailable => (None, true),
        },
    }
}

proof fn lemma_run_end_exact(s: Seq<char>, i: int, j: int, class: TokenClass)
    requires
        0 <= i <= j <= s.len(),
        forall|k: int| i <= k < j ==> in_class(class, #[trigger] s[k]),
        j == s.len() || !in_class(class, s[j]),
    ensures
        run_end(s, i, class) == j,
    decreases j - i,
{
    if i < j {
        lemma_run_end_exact(s, i + 1, j, class);
    }
}

/// The segments of `/forms/{id}` and `/forms`, for an ID without `/`.
proof fn lemma_form_path_segments(id: Seq<char>)
    requires
        forall|k: int| 0 <= k < id.len() ==> id[k] != '/',
    ensures
        path_segments("/forms/"@ + id) == if id.len() == 0 {
            seq!["forms"@]
        } else {
            seq!["forms"@, id]
        },
        path_segments("/forms"@) == seq!["forms"@],
{
    reveal_strlit("/forms/");
    reveal_strlit("/forms");
    reveal_strlit("forms");
    let c = TokenClass::PathSegment;
    let s = "/forms/"@ + id;
    assert(s.len() == 7 + id.len());
    assert(s[0] == '/' && s[1] == 'f' && s[2] == 'o' && s[3] == 'r' && s[4] == 'm' && s[5] == 's'
        && s[6] == '/');
    assert forall|k: int| 7 <= k < s.len() implies in_class(c, #[trigger] s[k]) by {
        assert(s[k] == id[k - 7]);
    }
    lemma_run_end_exact(s, 1, 6, c);
    lemma_run_end_exact(s, 7, s.len() as int, c);
    assert(s.subrange(1, 6) =~= "forms"@);
    assert(runs_from(s, s.len() as int, c) =~= Seq::<Seq<char>>::empty());
    if id.len() > 0 {
        assert(s.subrange(7, s.len() as int) =~= id);
        assert(runs_from(s, 7, c) == seq![id] + runs_from(s, s.len() as int, c));
    }
    assert(runs_from(s, 6, c) == runs_from(s, 7, c));
    assert(runs_from(s, 1, c) == seq![s.subrange(1, 6)] + runs_from(s, 6, c));
    assert(runs_from(s, 0, c) == runs_from(s, 1, c));
    assert(path_segments(s) =~= if id.len() == 0 {
        seq!["forms"@]
    } else {
        seq!["forms"@, id]
    });
    let t = "/forms"@;
    assert(t.len() == 6);
    assert(t[0] == '/' && t[1] == 'f' && t[2] == 'o' && t[3] == 'r' && t[4] == 'm' && t[5] == 's');
    lemma_run_end_exact(t, 1, 6, c);
    assert(t.subrange(1, 6) =~= "forms"@);
    assert(runs_from(t, 6, c) =~= Seq::<Seq<char>>::empty());
    assert(runs_from(t, 1, c) == seq![t.subrange(1, 6)] + runs_from(t, 6, c));
    assert(runs_from(t, 0, c) == runs_from(t, 1, c));
    assert(path_segments(t) =~= seq!["forms"@]);
}

/// Relative paths starting with `/forms` are the API's as they are, and the
/// same paths under `/api/v1` are the API's without the prefix.
proof fn lemma_form_paths_are_the_apis(id: Seq<char>)
    ensures
        path_without_api_prefix("/forms/"@ + id) == Some("/forms/"@ + id),
        path_without_api_prefix("/forms"@) == Some("/forms"@),
        path_without_api_prefix("/api/v1/forms/"@ + id) == Some("/forms/"@ + id),
        path_without_api_prefix("/api/v1/forms"@) == Some("/forms"@),
{
    reveal_strlit("/forms/");
    reveal_strlit("/forms");
    reveal_strlit("/api/v1");
    reveal_strlit("/api/v1/forms/");
    reveal_strlit("/api/v1/forms");
    let prefix = "/api/v1"@;
    assert(prefix.len() == 7 && prefix[1] == 'a');
    let q = "/forms/"@ + id;
    assert(q[1] == 'f');
    assert(q != prefix);
    if q.len() >= 7 {
        assert(q.subrange(0, 7)[1] == 'f');
        assert(q.subrange(0, 7) != prefix);
    }
    let r = "/forms"@;
    assert(r[1] == 'f' && r.len() == 6);
    assert(r != prefix);
    let p = "/api/v1/forms/"@ + id;
    assert(p.subrange(0, 7) =~= prefix);
    assert(p.subrange(7, p.len() as int) =~= q);
    assert(p != prefix);
    let pr = "/api/v1/forms"@;
    assert(pr.subrange(0, 7) =~= prefix);
    assert(pr.subrange(7, pr.len() as int) =~= r);
    assert(pr != prefix);
}

/// Reading a form, `/forms/{id}`, or the form list, `/forms`, with or
/// without the `/api/v1` prefix, counts against the signed-in user, or else
/// against the client's address.
pub proof fn lemma_form_reads_count_against_the_reader(id: Seq<char>, identity: RateLimitIdentity)
    requires
        forall|k: int| 0 <= k < id.len() ==> id[k] != '/',
    ensures
        ({
            let plan = match identity {
                RateLimitIdentity::User(user_id) => RateLimitPlan::AuthenticatedGet { user_id },
                RateLimitIdentity::Ip(ip) => RateLimitPlan::AnonymousGet { ip },
            };
            &&& rate_limit_policy(RequestMethod::Get, "/api/v1/forms/"@ + id, Some(identity)) == Ok::<
                RateLimitPlan,
                RateLimitPolicyError,
            >(plan)
            &&& rate_limit_policy(RequestMethod::Get, "/forms/"@ + id, Some(identity)) == Ok::<
                RateLimitPlan,
                RateLimitPolicyError,
            >(plan)
            &&& rate_limit_policy(RequestMethod::Get, "/api/v1/forms"@, Some(identity)) == Ok::<
                RateLimitPlan,
                RateLimitPolicyError,
            >(plan)
            &&& rate_limit_policy(RequestMethod::Get, "/forms"@, Some(identity)) == Ok::<
                RateLimitPlan,
                RateLimitPolicyError,
            >(plan)
        }),
{
    lemma_form_path_segments(id);
    lemma_form_paths_are_the_apis(id);
    reveal_strlit("forms");
}

proof fn lemma_runs_shift(s: Seq<char>, off: int, t: Seq<char>, i: int, class: TokenClass)
    requires
        0 <= off <= s.len(),
        s.subrange(off, s.len() as int) == t,
        0 <= i <= t.len(),
    ensures
        run_end(s, off + i, class) == off + run_end(t, i, class),
        runs_from(s, off + i, class) == runs_from(t, i, class),
    decreases t.len() - i, 0int,
{
    if i < t.len() {
        assert(s[off + i] == t[i]);
        lemma_runs_shift(s, off, t, i + 1, class);
        if in_class(class, t[i]) {
            let j = run_end(t, i, class);
            lemma_run_end(t, i, class);
            lemma_runs_shift_run_end(s, off, t, j, class);
            assert(s.subrange(off + i, off + j) =~= t.subrange(i, j));
        }
    }
}

proof fn lemma_runs_shift_run_end(s: Seq<char>, off: int, t: Seq<char>, j: int, class: TokenClass)
    requires
        0 <= off <= s.len(),
        s.subrange(off, s.len() as int) == t,
        0 <= j <= t.len(),
    ensures
        runs_from(s, off + j, class) == runs_from(t, j, class),
    decreases t.len() - j, 1int,
{
    if j < t.len() {
        assert(s[off + j] == t[j]);
        lemma_runs_shift(s, off, t, j, class);
    }
}

/// The segments of `/` + `segment` + `rest`, for a segment without `/` and
/// a rest that is empty or starts with `/`: the segment, then those of the
/// rest.
proof fn lemma_segments_prepend(segment: Seq<char>, rest: Seq<char>)
    requires
        segment.len() > 0,
        forall|k: int| 0 <= k < segment.len() ==> segment[k] != '/',
        rest.len() == 0 || rest[0] == '/',
    ensures
        path_segments(seq!['/'] + segment + rest) == seq![segment] + path_segments(rest),
{
    let c = TokenClass::PathSegment;
    let s = seq!['/'] + segment + rest;
    let m: int = 1 + segment.len() as int;
    assert forall|k: int| 1 <= k < m implies in_class(c, #[trigger] s[k]) by {
        assert(s[k] == segment[k - 1]);
    }
    if rest.len() > 0 {
        assert(s[m] == rest[0]);
    }
    lemma_run_end_exact(s, 1, m, c);
    assert(s.subrange(1, m) =~= segment);
    assert(s.subrange(m, s.len() as int) =~= rest);
    lemma_runs_shift_run_end(s, m, rest, 0, c);
    assert(runs_from(s, 0, c) == runs_from(s, 1, c));
}

/// A path relative to the API that does not begin with `/a` is the API's as
/// it is, and also under the `/api/v1` prefix.
proof fn lemma_relative_api_path(rel: Seq<char>)
    requires
        rel.len() >= 2,
        rel[0] == '/',
        rel[1] != 'a',
    ensures
        path_without_api_prefix(rel) == Some(rel),
        path_without_api_prefix("/api/v1"@ + rel) == Some(rel),
{
    reveal_strlit("/api/v1");
    let prefix = "/api/v1"@;
    assert(prefix.len() == 7 && prefix[1] == 'a');
    assert(rel != prefix);
    if rel.len() >= 7 {
        assert(rel.subrange(0, 7)[1] == rel[1]);
        assert(rel.subrange(0, 7) != prefix);
    }
    let p = prefix + rel;
    assert(p.subrange(0, 7) =~= prefix);
    assert(p.subrange(7, p.len() as int) =~= rel);
    assert(p.len() != prefix.len());
}

/// Answering a form as a temporary user, `POST /forms/{id}/temporary-answers`
/// with or without the `/api/v1` prefix, counts against the client's address
/// and the form when the ID is a UUID; it uses no quota otherwise, and none
/// for a signed-in user.
pub proof fn lemma_temporary_answers_count_against_address_and_form(
    id: Seq<char>,
    identity: Option<RateLimitIdentity>,
)
    requires
        id.len() > 0,
        forall|k: int| 0 <= k < id.len() ==> id[k] != '/',
    ensures
        ({
            let path = "/forms/"@ + id + "/temporary-answers"@;
            let plan = match identity {
                Some(RateLimitIdentity::Ip(ip)) => match uuid_parse_str(id) {
                    Some(form_id) => RateLimitPlan::TemporaryAnswer { ip, form_id },
                    None => RateLimitPlan::Skip,
                },
                _ => RateLimitPlan::Skip,
            };
            &&& rate_limit_policy(RequestMethod::Post, path, identity) == Ok::<
                RateLimitPlan,
                RateLimitPolicyError,
            >(plan)
            &&& rate_limit_policy(RequestMethod::Post, "/api/v1"@ + path, identity) == Ok::<
                RateLimitPlan,
                RateLimitPolicyError,
            >(plan)
        }),
{
    reveal_strlit("/forms/");
    reveal_strlit("forms");
    reveal_strlit("/temporary-answers");
    reveal_strlit("temporary-answers");
    let path = "/forms/"@ + id + "/temporary-answers"@;
    let last = seq!['/'] + "temporary-answers"@ + Seq::<char>::empty();
    let middle = seq!['/'] + id + last;
    assert(path =~= seq!['/'] + "forms"@ + middle);
    lemma_segments_prepend("temporary-answers"@, Seq::empty());
    assert(path_segments(Seq::<char>::empty()) =~= Seq::<Seq<char>>::empty());
    lemma_segments_prepend(id, last);
    lemma_segments_prepend("forms"@, middle);
    assert(path_segments(path) =~= seq!["forms"@, id, "temporary-answers"@]);
    lemma_relative_api_path(path);
}

/// Creating a session, `POST /session`, counts against the client's
/// address; ending one, `DELETE /session`, against the signed-in user, and
/// is refused without one; other methods on it use no quota.
pub proof fn lemma_session_requests(method: RequestMethod, identity: Option<RateLimitIdentity>)
    ensures
        ({
            let expected = match method {
                RequestMethod::Post => Ok(
                    match identity {
                        Some(RateLimitIdentity::Ip(ip)) => RateLimitPlan::SessionCreate { ip },
                        _ => RateLimitPlan::Skip,
                    },
                ),
                RequestMethod::Delete => match identity {
                    Some(RateLimitIdentity::User(user_id)) => Ok(
                        RateLimitPlan::AuthenticatedWrite { user_id },
                    ),
                    _ => Err(RateLimitPolicyError::MissingAuthenticatedIdentity),
                },
                _ => Ok(RateLimitPlan::Skip),
            };
            &&& rate_limit_policy(method, "/session"@, identity) == expected
            &&& rate_limit_policy(method, "/api/v1"@ + "/session"@, identity) == expected
        }),
{
    reveal_strlit("/session");
    reveal_strlit("session");
    reveal_strlit("forms");
    let path = "/session"@;
    assert(path =~= seq!['/'] + "session"@ + Seq::<char>::empty());
    lemma_segments_prepend("session"@, Seq::empty());
    assert(path_segments(Seq::<char>::empty()) =~= Seq::<Seq<char>>::empty());
    assert(path_segments(path) =~= seq!["session"@]);
    assert("session"@ != "forms"@);
    lemma_relative_api_path(path);
}

} // verus!
