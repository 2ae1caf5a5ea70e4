//! A set-once error slot that can be read without clearing it.
use vstd::prelude::*;

verus! {

/// Holds the first error stored; later stores are dropped.
/// Share it between threads behind a lock.
#[derive(Debug)]
pub struct Flag<IntoError> {
    error: Option<IntoError>,
}

impl<IntoError> View for Flag<IntoError> {
    type V = Option<IntoError>;

    closed spec fn view(&self) -> Option<IntoError> {
        self.error
    }
}

impl<IntoError: Clone> Flag<IntoError> {
    pub fn new() -> (r: Self)
        ensures
            r@ == None::<IntoError>,
    {
        Flag { error: None }
    }

    /// Stores `error` unless an error is already set.
    pub fn store_if_not_set(&mut self, error: IntoError)
        ensures
            final(self)@ == crate::flag::kept_or(old(self)@, error),
    {
        if self.error.is_none() {
            self.error = Some(error);
        }
    }

    /// A copy of the stored error, which stays set.
    pub fn load(&self) -> (r: Option<IntoError>)
        ensures
            r is Some <==> self@ is Some,
            r matches Some(e) ==> cloned(self@->Some_0, e),
    {
        self.error.clone()
    }
}

} // verus!
