use vstd::prelude::*;

verus! {

/// A container that holds exactly one value and grants only whole-value
/// access: the value is copied out or overwritten, and no reference into the
/// interior ever escapes a call.
pub struct MyCell<T> {
    value: T,
}

impl<T> View for MyCell<T> {
    type V = T;

    /// The value currently held.
    closed spec fn view(&self) -> T {
        self.value
    }
}

impl<T> MyCell<T> {
    /// Stores `value`.
    pub fn new(value: T) -> (r: MyCell<T>)
        ensures
            r@ == value,
    {
        MyCell { value }
    }

    /// Overwrites the stored value, discarding the previous one.
    pub fn set(&mut self, value: T)
        ensures
            final(self)@ == value,
    {
        self.value = value;
    }

    /// Returns a copy of the stored value.
    pub fn get(&self) -> (r: T)
        where
            T: Copy,
        ensures
            r == self@,
    {
        self.value
    }
}

} // verus!
