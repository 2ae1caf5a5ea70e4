//! A device found on the bus.
use crate::usb;
use vstd::prelude::*;

verus! {

/// A device found while listing, with its serial or the error that reading it gave.
#[derive(Debug)]
pub struct ListedDevice {
    pub speed: usb::Speed,
    pub serial: Result<String, usb::Error>,
}

} // verus!
