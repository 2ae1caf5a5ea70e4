//! The Prophesee EVK3 HD profile.
use crate::properties::Camera;
use crate::usb;
use vstd::prelude::*;

verus! {

pub const VENDOR_ID: u16 = 0x04b4;

pub const PRODUCT_ID: u16 = 0x00f4;

/// Sensor bias currents, as register codes.
#[derive(Debug, Clone, Copy, PartialEq, Eq, Structural)]
pub struct Biases {
    pub pr: u8,
    pub fo_p: u8,
    pub fo_n: u8,
    pub hpf: u8,
    pub diff_on: u8,
    pub diff: u8,
    pub diff_off: u8,
    pub refr: u8,
    pub reqpuy: u8,
    pub blk: u8,
}

/// Caps the event rate at `maximum_events_per_period` per reference period.
#[derive(Debug, Clone, Copy, PartialEq, Eq, Structural)]
pub struct RateLimiter {
    pub reference_period_us: u16,
    pub maximum_events_per_period: u32,
}

#[derive(Debug, Clone, Copy)]
pub struct Configuration {
    pub biases: Biases,
    pub x_mask: [u64; 20],
    pub y_mask: [u64; 12],
    pub mask_intersection_only: bool,
    pub rate_limiter: Option<RateLimiter>,
}

/// The configuration a fresh device starts with.
pub fn default_configuration() -> (r: Configuration)
    ensures
        r.biases == (Biases {
            pr: 0x69,
            fo_p: 0x4a,
            fo_n: 0x00,
            hpf: 0x00,
            diff_on: 0x73,
            diff: 0x50,
            diff_off: 0x34,
            refr: 0x44,
            reqpuy: 0x94,
            blk: 0x78,
        }),
        forall|i: int| 0 <= i < 20 ==> r.x_mask@[i] == 0,
        forall|i: int| 0 <= i < 12 ==> r.y_mask@[i] == 0,
        !r.mask_intersection_only,
        r.rate_limiter is None,
{
    Configuration {
        biases: Biases {
            pr: 0x69,
            fo_p: 0x4a,
            fo_n: 0x00,
            hpf: 0x00,
            diff_on: 0x73,
            diff: 0x50,
            diff_off: 0x34,
            refr: 0x44,
            reqpuy: 0x94,
            blk: 0x78,
        },
        x_mask: [0; 20],
        y_mask: [0; 12],
        mask_intersection_only: false,
        rate_limiter: None,
    }
}

/// Name, 1280 × 720 sensor, default configuration.
pub fn properties() -> (r: Camera<Configuration>)
    ensures
        r.width == 1280,
        r.height == 720,
{
    Camera {
        name: "Prophesee EVK3 HD",
        width: 1280,
        height: 720,
        default_configuration: default_configuration(),
    }
}

/// 4096 buffers of 128 KiB, 32 transfers in flight, no DMA.
pub fn default_usb_configuration() -> (r: usb::Configuration)
    ensures
        r == (usb::Configuration {
            buffer_size: 0x2_0000,
            ring_size: 0x1000,
            transfer_queue_size: 0x20,
            allow_dma: false,
        }),
{
    usb::Configuration {
        buffer_size: 0x2_0000,
        ring_size: 0x1000,
        transfer_queue_size: 0x20,
        allow_dma: false,
    }
}

} // verus!
