//! The slot through which user threads hand new configurations to a device's
//! configuration worker; several updates made during one slow apply coalesce
//! into the latest.
use vstd::prelude::*;

verus! {

/// The latest configuration and whether the worker has yet to apply it.
#[derive(Debug)]
pub struct Flagged<Configuration> {
    configuration: Configuration,
    updated: bool,
}

impl<Configuration> View for Flagged<Configuration> {
    type V = (Configuration, bool);

    closed spec fn view(&self) -> (Configuration, bool) {
        (self.configuration, self.updated)
    }
}

impl<Configuration: Clone> Flagged<Configuration> {
    /// A slot holding the configuration already applied.
    pub fn new(configuration: Configuration) -> (r: Self)
        ensures
            r@ == (configuration, false),
    {
        Flagged { configuration, updated: false }
    }

    /// Replaces the configuration to apply; an earlier one not yet taken is dropped.
    pub fn update(&mut self, configuration: Configuration)
        ensures
            final(self)@ == (configuration, true),
    {
        self.configuration = configuration;
        self.updated = true;
    }

    /// The worker's side: a copy of the configuration if it changed since the
    /// last take, and the flag cleared.
    pub fn take_update(&mut self) -> (r: Option<Configuration>)
        ensures
            final(self)@ == (old(self)@.0, false),
            r is Some <==> old(self)@.1,
            r matches Some(c) ==> cloned(old(self)@.0, c),
    {
        if self.updated {
            self.updated = false;
            Some(self.configuration.clone())
        } else {
            None
        }
    }
}

} // verus!
