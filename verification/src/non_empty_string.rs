use vstd::prelude::*;

use crate::validation::ValidationError;

verus! {

/// A string that holds at least one character.
#[derive(Debug, PartialEq)]
pub struct NonEmptyString(String);

impl View for NonEmptyString {
    type V = Seq<char>;

    closed spec fn view(&self) -> Seq<char> {
        self.0@
    }
}

impl Clone for NonEmptyString {
    fn clone(&self) -> (copy: Self)
        ensures
            copy@ == self@,
    {
        proof {
            use_type_invariant(self);
        }
        NonEmptyString(self.0.clone())
    }
}

impl NonEmptyString {
    #[verifier::type_invariant]
    spec fn holds_a_character(self) -> bool {
        self.0@.len() > 0
    }

    /// Accepts `value` exactly when it is not empty.
    pub fn try_new(value: String) -> (result: Result<Self, ValidationError>)
        ensures
            match result {
                Ok(s) => value@.len() > 0 && s@ == value@,
                Err(e) => value@.len() == 0 && e == ValidationError::EmptyValue,
            },
    {
        if value.as_str().is_empty() {
            return Err(ValidationError::EmptyValue);
        }
        Ok(NonEmptyString(value))
    }

    pub fn into_inner(self) -> (inner: String)
        ensures
            inner@ == self@,
            inner@.len() > 0,
    {
        proof {
            use_type_invariant(&self);
        }
        self.0
    }

    /// Accepts the text `value` exactly when it is not empty.
    pub fn from_text(value: &str) -> (result: Result<Self, ValidationError>)
        ensures
            match result {
                Ok(s) => value@.len() > 0 && s@ == value@,
                Err(e) => value@.len() == 0 && e == ValidationError::EmptyValue,
            },
    {
        NonEmptyString::try_new(crate::text::string_of(&crate::text::chars_of(value)))
    }

    pub fn as_str(&self) -> (s: &str)
        ensures
            s@ == self@,
            s@.len() > 0,
    {
        proof {
            use_type_invariant(self);
        }
        self.0.as_str()
    }
}

impl core::str::FromStr for NonEmptyString {
    type Err = ValidationError;

    fn from_str(s: &str) -> (result: Result<Self, Self::Err>)
        ensures
            match result {
                Ok(v) => s@.len() > 0 && v@ == s@,
                Err(e) => s@.len() == 0 && e == ValidationError::EmptyValue,
            },
    {
        NonEmptyString::from_text(s)
    }
}

} // verus!
