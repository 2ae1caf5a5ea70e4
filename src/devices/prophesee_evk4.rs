//! The Prophesee EVK4 profile.
use crate::properties::Camera;
use crate::usb;
use vstd::prelude::*;

verus! {

pub const VENDOR_ID: u16 = 0x04b4;

pub const PRODUCT_ID: u16 = 0x00f5;

/// Sensor bias currents, as register codes.
#[derive(Debug, Clone, Copy, PartialEq, Eq, Structural)]
pub struct Biases {
    pub pr: u8,
    pub fo: u8,
    pub hpf: u8,
    pub diff_on: u8,
    pub diff: u8,
    pub diff_off: u8,
    pub inv: u8,
    pub refr: u8,
    pub reqpuy: u8,
    pub reqpux: u8,
    pub sendreqpdy: u8,
    pub unknown_1: u8,
    pub unknown_2: u8,
}

/// Source of the sensor's clock.
#[derive(Debug, Clone, Copy, PartialEq, Eq, Structural)]
pub enum Clock {
    Internal,
    InternalWithOutputEnabled,
    External,
}

impl Clock {
    /// The register code of the clock source.
    pub fn code(self) -> (r: u32)
        ensures
            r == match self {
                Clock::Internal => 0u32,
                Clock::InternalWithOutputEnabled => 1,
                Clock::External => 2,
            },
    {
        match self {
            Clock::Internal => 0,
            Clock::InternalWithOutputEnabled => 1,
            Clock::External => 2,
        }
    }
}

/// Caps the event rate at `maximum_events_per_period` per reference period.
#[derive(Debug, Clone, Copy, PartialEq, Eq, Structural)]
pub struct RateLimiter {
    pub reference_period_us: u16,
    pub maximum_events_per_period: u32,
}

#[derive(Debug, Clone, Copy)]
pub struct Configuration {
    pub biases: Biases,
    pub x_mask: [u64; 20],
    pub y_mask: [u64; 12],
    pub pixel_mask: [u64; 21],
    pub mask_intersection_only: bool,
    pub enable_external_trigger: bool,
    pub clock: Clock,
    pub rate_limiter: Option<RateLimiter>,
    pub enable_output: bool,
}

/// The configuration a fresh device starts with.
pub fn default_configuration() -> (r: Configuration)
    ensures
        r.biases == (Biases {
            pr: 0x7C,
            fo: 0x53,
            hpf: 0x00,
            diff_on: 0x66,
            diff: 0x4D,
            diff_off: 0x49,
            inv: 0x5B,
            refr: 0x14,
            reqpuy: 0x8C,
            reqpux: 0x7C,
            sendreqpdy: 0x94,
            unknown_1: 0x74,
            unknown_2: 0x51,
        }),
        forall|i: int| 0 <= i < 20 ==> r.x_mask@[i] == 0,
        forall|i: int| 0 <= i < 12 ==> r.y_mask@[i] == 0,
        forall|i: int| 0 <= i < 21 ==> r.pixel_mask@[i] == 0,
        !r.mask_intersection_only,
        r.enable_external_trigger,
        r.clock == Clock::Internal,
        r.rate_limiter is None,
        r.enable_output,
{
    Configuration {
        biases: Biases {
            pr: 0x7C,
            fo: 0x53,
            hpf: 0x00,
            diff_on: 0x66,
            diff: 0x4D,
            diff_off: 0x49,
            inv: 0x5B,
            refr: 0x14,
            reqpuy: 0x8C,
            reqpux: 0x7C,
            sendreqpdy: 0x94,
            unknown_1: 0x74,
            unknown_2: 0x51,
        },
        x_mask: [0; 20],
        y_mask: [0; 12],
        pixel_mask: [0; 21],
        mask_intersection_only: false,
        enable_external_trigger: true,
        clock: Clock::Internal,
        rate_limiter: None,
        enable_output: true,
    }
}

/// Name, 1280 × 720 sensor, default configuration.
pub fn properties() -> (r: Camera<Configuration>)
    ensures
        r.width == 1280,
        r.height == 720,
{
    Camera {
        name: "Prophesee EVK4",
        width: 1280,
        height: 720,
        default_configuration: default_configuration(),
    }
}

/// 4096 buffers of 128 KiB, 32 transfers in flight, no DMA.
pub fn default_usb_configuration() -> (r: usb::Configuration)
    ensures
        r == (usb::Configuration {
            buffer_size: 0x2_0000,
            ring_size: 0x1000,
            transfer_queue_size: 0x20,
            allow_dma: false,
        }),
{
    usb::Configuration {
        buffer_size: 0x2_0000,
        ring_size: 0x1000,
        transfer_queue_size: 0x20,
        allow_dma: false,
    }
}

} // verus!
