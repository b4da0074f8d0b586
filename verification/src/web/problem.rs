//! Answers in the problem-details form that the API gives on failure.

use vstd::prelude::*;

use crate::text::{chars_of, string_of};

verus! {

/// A problem-details answer: status code, title, detail and error code.
#[derive(Debug, Clone, PartialEq, Eq)]
pub struct Problem {
    pub status: u16,
    pub title: String,
    pub detail: String,
    pub error_code: String,
}

impl View for Problem {
    type V = (u16, Seq<char>, Seq<char>, Seq<char>);

    open spec fn view(&self) -> (u16, Seq<char>, Seq<char>, Seq<char>) {
        (self.status, self.title@, self.detail@, self.error_code@)
    }
}

impl Problem {
    pub fn new(status: u16, title: &str, detail: &str, error_code: &str) -> (p: Problem)
        ensures
            p@ == (status, title@, detail@, error_code@),
    {
        Problem {
            status,
            title: string_of(&chars_of(title)),
            detail: string_of(&chars_of(detail)),
            error_code: string_of(&chars_of(error_code)),
        }
    }
}

} // verus!
