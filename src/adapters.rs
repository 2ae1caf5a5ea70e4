//! Decoders of the cameras' wire formats, and one enum over them so that a
//! device need not say which format it streams.
pub mod evt3;

use vstd::prelude::*;

verus! {

/// A decoder of one of the supported wire formats.
#[derive(Debug, Clone, Copy)]
pub enum Adapter {
    Evt3(evt3::Adapter),
}

impl From<evt3::Adapter> for Adapter {
    fn from(adapter: evt3::Adapter) -> (r: Self)
        ensures
            r == Adapter::Evt3(adapter),
    {
        Adapter::Evt3(adapter)
    }
}

impl vstd::std_specs::convert::FromSpecImpl<evt3::Adapter> for Adapter {
    open spec fn obeys_from_spec() -> bool {
        true
    }

    open spec fn from_spec(adapter: evt3::Adapter) -> Adapter {
        Adapter::Evt3(adapter)
    }
}

} // verus!
