//! What a device profile tells about its camera.
use vstd::prelude::*;

verus! {

/// Name, sensor size and default configuration of a camera model.
#[derive(Debug)]
pub struct Camera<Configuration> {
    pub name: &'static str,
    pub width: u16,
    pub height: u16,
    pub default_configuration: Configuration,
}

} // verus!
