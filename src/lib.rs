//! Host-side drivers for neuromorphic event cameras: the EVT3 decoder, the
//! bookkeeping of the USB transfer ring, and the shared error and warning slots.
pub mod adapters;
pub mod configuration;
pub mod device;
pub mod devices;
pub mod error;
pub mod flag;
pub mod packed;
pub mod properties;
pub mod structured_array;
pub mod types;
pub mod usb;
