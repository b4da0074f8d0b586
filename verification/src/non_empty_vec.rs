use vstd::prelude::*;

use crate::validation::ValidationError;

verus! {

/// A vector that holds at least one element.
#[derive(Debug, PartialEq)]
pub struct NonEmptyVec<T>(Vec<T>);

impl<T> View for NonEmptyVec<T> {
    type V = Seq<T>;

    closed spec fn view(&self) -> Seq<T> {
        self.0@
    }
}

impl<T> NonEmptyVec<T> {
    #[verifier::type_invariant]
    spec fn holds_an_element(self) -> bool {
        self.0@.len() > 0
    }

    /// Accepts `value` exactly when it is not empty.
    pub fn try_new(value: Vec<T>) -> (result: Result<Self, ValidationError>)
        ensures
            match result {
                Ok(v) => value@.len() > 0 && v@ == value@,
                Err(e) => value@.len() == 0 && e == ValidationError::EmptyValue,
            },
    {
        if value.len() == 0 {
            return Err(ValidationError::EmptyValue);
        }
        Ok(NonEmptyVec(value))
    }

    pub fn into_inner(self) -> (inner: Vec<T>)
        ensures
            inner@ == self@,
            inner@.len() > 0,
    {
        proof {
            use_type_invariant(&self);
        }
        self.0
    }

    pub fn as_vec(&self) -> (inner: &Vec<T>)
        ensures
            inner@ == self@,
            inner@.len() > 0,
    {
        proof {
            use_type_invariant(self);
        }
        &self.0
    }
}

} // verus!
