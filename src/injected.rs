use vstd::prelude::*;

use crate::injector::Injectable;

verus! {

/// A slot that a data-holder's injected field lives in: empty until a value
/// is injected, populated afterwards. A later injection replaces the value.
pub struct Injected<T> {
    value: Option<T>,
}

impl<T> View for Injected<T> {
    type V = Option<T>;

    /// `None` while the slot is empty, `Some(v)` once `v` was injected.
    closed spec fn view(&self) -> Option<T> {
        self.value
    }
}

impl<T> Injected<T> {
    /// A populated slot holding `value`.
    pub fn from(value: T) -> (r: Self)
        ensures
            r@ == Some(value),
    {
        Injected { value: Some(value) }
    }

    /// Whether a value has been injected.
    pub fn is_injected(&self) -> (r: bool)
        ensures
            r == self@ is Some,
    {
        self.value.is_some()
    }

    /// The injected value. Reading an empty slot is refused: callers must
    /// show that a value was injected first.
    pub fn get(&self) -> (r: &T)
        requires
            self@ is Some,
        ensures
            *r == self@->0,
    {
        self.value.as_ref().unwrap()
    }

    /// The injected value, for change in place. Like `get`, refused on an
    /// empty slot; the slot stays populated, with the changed value.
    pub fn get_mut(&mut self) -> (r: &mut T)
        requires
            old(self)@ is Some,
        ensures
            *r == old(self)@->0,
            final(self)@ == Some(*final(r)),
    {
        self.value.as_mut().unwrap()
    }
}

impl<T> Default for Injected<T> {
    /// An empty slot.
    fn default() -> (r: Self)
        ensures
            r@ is None,
    {
        Injected { value: None }
    }
}

/// A slot on its own accepts values of its type: each one replaces the last.
impl<T: Clone> Injectable<T> for Injected<T> {
    open spec fn injected_into(self, value: T, after: Self) -> bool {
        after@ == Some(value)
    }

    fn inject(&mut self, value: T) {
        *self = Injected::from(value);
    }
}

} // verus!
