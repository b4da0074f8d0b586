use vstd::prelude::*;

use vstd::std_specs::cmp::PartialEqSpec;

use crate::validation::ValidationError;

verus! {

/// No element of `s` equals, by `T`'s `==`, an element that comes before it.
pub open spec fn no_earlier_equal<T: PartialEq>(s: Seq<T>) -> bool {
    forall|i: int, j: int| 0 <= j < i < s.len() ==> !s[j].eq_spec(&s[i])
}

/// A vector that keeps its elements in the given order and holds no
/// element twice.
#[derive(Debug, PartialEq, Eq)]
pub struct OrderedUniqueVec<T>(Vec<T>);

impl<T> View for OrderedUniqueVec<T> {
    type V = Seq<T>;

    closed spec fn view(&self) -> Seq<T> {
        self.0@
    }
}

impl<T: PartialEq> OrderedUniqueVec<T> {
    /// The elements of every value are pairwise distinct, wherever `T`'s
    /// `==` follows its specification.
    pub closed spec fn well_formed(&self) -> bool {
        T::obeys_eq_spec() ==> no_earlier_equal(self.0@)
    }

    /// Accepts `value`, in its order, exactly when no element equals an
    /// earlier one.
    pub fn try_new(value: Vec<T>) -> (result: Result<Self, ValidationError>)
        ensures
            result matches Ok(v) ==> v@ == value@ && v.well_formed(),
            result matches Err(e) ==> e == ValidationError::DuplicateElement,
            T::obeys_eq_spec() ==> match result {
                Ok(v) => no_earlier_equal(value@),
                Err(e) => !no_earlier_equal(value@),
            },
    {
        let mut i: usize = 0;
        while i < value.len()
            invariant
                i <= value@.len(),
                T::obeys_eq_spec() ==> forall|a: int, b: int|
                    0 <= b < a < i ==> !value@[b].eq_spec(&value@[a]),
            decreases value@.len() - i,
        {
            let mut j: usize = 0;
            while j < i
                invariant
                    j <= i < value@.len(),
                    T::obeys_eq_spec() ==> forall|a: int, b: int|
                        0 <= b < a < i ==> !value@[b].eq_spec(&value@[a]),
                    T::obeys_eq_spec() ==> forall|b: int|
                        0 <= b < j ==> !value@[b].eq_spec(&value@[i as int]),
                decreases i - j,
            {
                if value[j] == value[i] {
                    return Err(ValidationError::DuplicateElement);
                }
                j = j + 1;
            }
            i = i + 1;
        }
        Ok(OrderedUniqueVec(value))
    }

    pub fn empty() -> (v: Self)
        ensures
            v@ == Seq::<T>::empty(),
            v.well_formed(),
    {
        OrderedUniqueVec(Vec::new())
    }
}

impl<T> OrderedUniqueVec<T> {
    pub fn as_slice(&self) -> (s: &[T])
        ensures
            s@ == self@,
    {
        self.0.as_slice()
    }

    pub fn into_inner(self) -> (inner: Vec<T>)
        ensures
            inner@ == self@,
    {
        self.0
    }
}

impl<T: PartialEq> Default for OrderedUniqueVec<T> {
    fn default() -> (v: Self)
        ensures
            v@ == Seq::<T>::empty(),
    {
        Self::empty()
    }
}

} // verus!
