//! Who may create a session: behind the proxy, only requests that carry the
//! proxy's shared secret.

use vstd::prelude::*;

use crate::text::text_equal;

verus! {

/// How long sessions last and which proxy secret session creation needs.
#[derive(Debug, Clone)]
pub struct SessionPolicy {
    maximum_lifetime_seconds: u32,
    proxy_secret: Option<String>,
}

impl SessionPolicy {
    pub closed spec fn spec_maximum_lifetime_seconds(&self) -> u32 {
        self.maximum_lifetime_seconds
    }

    /// The proxy secret that session creation needs, if one is configured;
    /// an empty secret counts as none.
    pub closed spec fn required_secret(&self) -> Option<Seq<char>> {
        match self.proxy_secret {
            Some(s) => Some(s@),
            None => None,
        }
    }

    pub fn new(maximum_lifetime_seconds: u32, proxy_secret: Option<String>) -> (p: Self)
        ensures
            p.spec_maximum_lifetime_seconds() == maximum_lifetime_seconds,
            p.required_secret() == match proxy_secret {
                Some(s) => if s@.len() == 0 {
                    None
                } else {
                    Some(s@)
                },
                None => None,
            },
    {
        let proxy_secret = match proxy_secret {
            Some(s) => if s.as_str().is_empty() {
                None
            } else {
                Some(s)
            },
            None => None,
        };
        SessionPolicy { maximum_lifetime_seconds, proxy_secret }
    }

    /// The longest a session lasts, in seconds.
    pub fn maximum_lifetime_seconds(&self) -> (r: u32)
        ensures
            r == self.spec_maximum_lifetime_seconds(),
    {
        self.maximum_lifetime_seconds
    }

    /// Whether a request that carries `proxy_secret_header` (the value of the
    /// proxy secret header, if it has a readable one) may create a session:
    /// always without a configured secret, else only with that secret.
    pub fn allows_session_creation(&self, proxy_secret_header: Option<&str>) -> (r: bool)
        ensures
            r == match self.required_secret() {
                None => true,
                Some(expected) => proxy_secret_header matches Some(actual) && actual@ == expected,
            },
    {
        match &self.proxy_secret {
            None => true,
            Some(expected) => match proxy_secret_header {
                Some(actual) => text_equal(actual, expected.as_str()),
                None => false,
            },
        }
    }
}

} // verus!
