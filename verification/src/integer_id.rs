use vstd::prelude::*;
use vstd::std_specs::convert::FromSpecImpl;

use core::marker::PhantomData;

verus! {

/// An integer identifier, tagged with the kind of thing that it names.
#[derive(Debug)]
pub struct IntegerId<T>(i32, PhantomData<T>);

impl<T> View for IntegerId<T> {
    type V = i32;

    closed spec fn view(&self) -> i32 {
        self.0
    }
}

impl<T> IntegerId<T> {
    pub fn into_inner(self) -> (value: i32)
        ensures
            value == self@,
    {
        self.0
    }
}

impl<T> Clone for IntegerId<T> {
    fn clone(&self) -> (copy: Self)
        ensures
            copy@ == self@,
    {
        IntegerId(self.0, PhantomData)
    }
}

impl<T> Copy for IntegerId<T> {}

impl<T> Default for IntegerId<T> {
    fn default() -> (id: Self)
        ensures
            id@ == 0,
    {
        IntegerId(0, PhantomData)
    }
}

impl<T> From<i32> for IntegerId<T> {
    fn from(value: i32) -> (id: Self)
        ensures
            id@ == value,
    {
        IntegerId(value, PhantomData)
    }
}

impl<T> FromSpecImpl<i32> for IntegerId<T> {
    open spec fn obeys_from_spec() -> bool {
        true
    }

    closed spec fn from_spec(value: i32) -> Self {
        IntegerId(value, PhantomData)
    }
}

impl<T> PartialEq for IntegerId<T> {
    fn eq(&self, other: &Self) -> (same: bool)
        ensures
            same == (self@ == other@),
    {
        self.0 == other.0
    }
}

impl<T> vstd::std_specs::cmp::PartialEqSpecImpl for IntegerId<T> {
    open spec fn obeys_eq_spec() -> bool {
        true
    }

    open spec fn eq_spec(&self, other: &Self) -> bool {
        self@ == other@
    }
}

} // verus!
