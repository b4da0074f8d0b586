use vstd::prelude::*;

verus! {

/// Reasons for which a value is refused by a validated type.
#[derive(Debug, Clone, Copy, PartialEq, Eq, Structural)]
pub enum ValidationError {
    EmptyValue,
    DuplicateElement,
    NegativeValue,
}

} // verus!
