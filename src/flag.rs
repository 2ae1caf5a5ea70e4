//! The per-device slots where asynchronous producers publish the first error
//! and a pending warning, and where consumers take them.
use vstd::prelude::*;

verus! {

/// The two slots.
#[derive(Debug)]
pub struct Inner<IntoError, IntoWarning> {
    pub error: Option<IntoError>,
    pub warning: Option<IntoWarning>,
}

/// A set-once error slot and a warning slot. Stores keep what is already
/// there, so the first cause is never masked; loads take and clear.
/// Share it between threads behind a lock.
#[derive(Debug)]
pub struct Flag<IntoError, IntoWarning> {
    inner: Inner<IntoError, IntoWarning>,
}

impl<IntoError, IntoWarning> View for Flag<IntoError, IntoWarning> {
    type V = (Option<IntoError>, Option<IntoWarning>);

    closed spec fn view(&self) -> (Option<IntoError>, Option<IntoWarning>) {
        (self.inner.error, self.inner.warning)
    }
}

/// `slot` after a get-or-insert of `value`.
pub open spec fn kept_or<T>(slot: Option<T>, value: T) -> Option<T> {
    match slot {
        Some(v) => Some(v),
        None => Some(value),
    }
}

impl<IntoError, IntoWarning> Flag<IntoError, IntoWarning> {
    /// Both slots empty.
    pub fn new() -> (r: Self)
        ensures
            r@ == (None::<IntoError>, None::<IntoWarning>),
    {
        Flag { inner: Inner { error: None, warning: None } }
    }

    /// Stores `error` unless an error is already set.
    pub fn store_error_if_not_set(&mut self, error: IntoError)
        ensures
            final(self)@ == (kept_or(old(self)@.0, error), old(self)@.1),
    {
        if self.inner.error.is_none() {
            self.inner.error = Some(error);
        }
    }

    /// Stores `warning` unless a warning is already set.
    pub fn store_warning_if_not_set(&mut self, warning: IntoWarning)
        ensures
            final(self)@ == (old(self)@.0, kept_or(old(self)@.1, warning)),
    {
        if self.inner.warning.is_none() {
            self.inner.warning = Some(warning);
        }
    }

    /// Takes the error, if any, and clears its slot.
    pub fn load_error(&mut self) -> (r: Result<(), IntoError>)
        ensures
            r == match old(self)@.0 {
                Some(e) => Err(e),
                None => Ok::<(), IntoError>(()),
            },
            final(self)@ == (None::<IntoError>, old(self)@.1),
    {
        match self.inner.error.take() {
            Some(error) => Err(error),
            None => Ok(()),
        }
    }

    /// Takes the warning, if any, and clears its slot.
    pub fn load_warning(&mut self) -> (r: Option<IntoWarning>)
        ensures
            r == old(self)@.1,
            final(self)@ == (old(self)@.0, None::<IntoWarning>),
    {
        self.inner.warning.take()
    }
}

impl<IntoError, IntoWarning> Default for Flag<IntoError, IntoWarning> {
    fn default() -> (r: Self)
        ensures
            r@ == (None::<IntoError>, None::<IntoWarning>),
    {
        Flag::new()
    }
}

/// Once set, the error stays the first one stored until it is loaded,
/// whatever is stored after it.
pub proof fn lemma_first_error_kept<E>(slot: Option<E>, first: E, later: E)
    ensures
        kept_or(kept_or(slot, first), later) == kept_or(slot, first),
        slot is None ==> kept_or(kept_or(slot, first), later) == Some(first),
{
}

} // verus!
