//! Device profiles: identifiers, sensor size and default configurations.
pub mod prophesee_evk3_hd;
pub mod prophesee_evk4;
