//! A store of values of one type, each found again by the index that it was
//! given when it was stored.

use std::hash::{Hash, Hasher};
use std::marker::PhantomData;
use vstd::prelude::*;

verus! {

/// The index of a value of type `T` in an [`Arena`].
#[derive(Debug)]
pub struct Idx<T> {
    raw: u32,
    _ty: PhantomData<T>,
}

impl<T> Idx<T> {
    /// The number that the index wraps.
    pub closed spec fn raw(self) -> u32 {
        self.raw
    }

    /// The index that wraps `raw`.
    pub fn from_raw(raw: u32) -> (index: Idx<T>)
        ensures
            index.raw() == raw,
    {
        Idx { raw, _ty: PhantomData }
    }

    /// The number that the index wraps.
    pub fn into_raw(self) -> (raw: u32)
        ensures
            raw == self.raw(),
    {
        self.raw
    }
}

impl<T> Clone for Idx<T> {
    fn clone(&self) -> (copy: Idx<T>)
        ensures
            copy == *self,
    {
        Idx { raw: self.raw, _ty: PhantomData }
    }
}

impl<T> Copy for Idx<T> {

}

impl<T> PartialEq for Idx<T> {
    fn eq(&self, other: &Idx<T>) -> (equal: bool) {
        self.raw == other.raw
    }
}

impl<T> Eq for Idx<T> {

}

/// `u32::hash` of std feeds the number to the hasher. Nothing is claimed of
/// what the hasher then holds.
pub assume_specification<H: Hasher>[ <u32 as Hash>::hash ](value: &u32, state: &mut H);

impl<T> Hash for Idx<T> {
    fn hash<H: Hasher>(&self, state: &mut H) {
        self.raw.hash(state)
    }
}

impl<T> vstd::std_specs::cmp::PartialEqSpecImpl for Idx<T> {
    open spec fn obeys_eq_spec() -> bool {
        true
    }

    open spec fn eq_spec(&self, other: &Idx<T>) -> bool {
        self.raw() == other.raw()
    }
}

/// Values of type `T`, in the order in which they were stored.
#[derive(Debug, PartialEq, Eq)]
pub struct Arena<T> {
    data: Vec<T>,
}

impl<T> View for Arena<T> {
    type V = Seq<T>;

    closed spec fn view(&self) -> Seq<T> {
        self.data@
    }
}

impl<T> Arena<T> {
    /// An arena that holds nothing.
    pub fn new() -> (arena: Arena<T>)
        ensures
            arena@ == Seq::<T>::empty(),
    {
        Arena { data: Vec::new() }
    }

    /// The number of values stored.
    pub fn len(&self) -> (len: usize)
        ensures
            len == self@.len(),
    {
        self.data.len()
    }

    /// Stores `value` and returns its index, or hands `value` back if the
    /// arena already holds as many values as indices can tell apart.
    pub fn store(&mut self, value: T) -> (outcome: Result<Idx<T>, T>)
        ensures
            match outcome {
                Ok(index) => old(self)@.len() <= u32::MAX && index.raw() == old(self)@.len()
                    && final(self)@
                    == old(self)@.push(value),
                Err(given) => old(self)@.len() > u32::MAX && given == value
                    && final(self)@ == old(self)@,
            },
    {
        let len = self.data.len();
        if len > 0xffff_ffff {
            return Err(value);
        }
        self.data.push(value);
        Ok(Idx { raw: len as u32, _ty: PhantomData })
    }

    /// The value stored at `index`, if one is.
    pub fn get(&self, index: Idx<T>) -> (value: Option<&T>)
        ensures
            match value {
                Some(value) => index.raw() < self@.len() && *value == self@[index.raw() as int],
                None => index.raw() >= self@.len(),
            },
    {
        let at = index.raw as usize;
        if at < self.data.len() {
            Some(&self.data[at])
        } else {
            None
        }
    }
}

} // verus!
