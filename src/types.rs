//! Decoded event records and their packed little-endian byte layouts.
use vstd::prelude::*;

verus! {

/// Little-endian bytes of a 16-bit value.
pub open spec fn le_bytes_u16(v: u16) -> Seq<u8> {
    seq![(v % 0x100) as u8, (v / 0x100) as u8]
}

/// Little-endian bytes of a 64-bit value.
pub open spec fn le_bytes_u64(v: u64) -> Seq<u8> {
    seq![
        (v % 0x100) as u8,
        ((v / 0x100) % 0x100) as u8,
        ((v / 0x1_0000) % 0x100) as u8,
        ((v / 0x100_0000) % 0x100) as u8,
        ((v / 0x1_0000_0000) % 0x100) as u8,
        ((v / 0x100_0000_0000) % 0x100) as u8,
        ((v / 0x1_0000_0000_0000) % 0x100) as u8,
        (v / 0x100_0000_0000_0000) as u8,
    ]
}

fn push_u16_le(out: &mut Vec<u8>, v: u16)
    ensures
        final(out)@ == old(out)@ + le_bytes_u16(v),
{
    out.push((v % 0x100) as u8);
    out.push((v / 0x100) as u8);
    assert(final(out)@ =~= old(out)@ + le_bytes_u16(v));
}

fn push_u64_le(out: &mut Vec<u8>, v: u64)
    ensures
        final(out)@ == old(out)@ + le_bytes_u64(v),
{
    out.push((v % 0x100) as u8);
    out.push(((v / 0x100) % 0x100) as u8);
    out.push(((v / 0x1_0000) % 0x100) as u8);
    out.push(((v / 0x100_0000) % 0x100) as u8);
    out.push(((v / 0x1_0000_0000) % 0x100) as u8);
    out.push(((v / 0x100_0000_0000) % 0x100) as u8);
    out.push(((v / 0x1_0000_0000_0000) % 0x100) as u8);
    out.push((v / 0x100_0000_0000_0000) as u8);
    assert(final(out)@ =~= old(out)@ + le_bytes_u64(v));
}

/// A record whose packed in-memory layout can be read as bytes.
pub trait SliceView {
    /// The packed little-endian layout of the record.
    spec fn layout(&self) -> Seq<u8>;

    fn as_bytes(&self) -> (r: Vec<u8>)
        ensures
            r@ == self.layout(),
    ;
}

/// Polarity of a DVS event: the brightness went down (`Off`) or up (`On`).
#[derive(Debug, Clone, Copy, PartialEq, Eq, Structural)]
pub enum DvsPolarity {
    Off,
    On,
}

impl DvsPolarity {
    /// The byte that stands for the polarity in a packed record.
    pub open spec fn code(self) -> u8 {
        match self {
            DvsPolarity::Off => 0,
            DvsPolarity::On => 1,
        }
    }

    pub fn as_u8(self) -> (r: u8)
        ensures
            r == self.code(),
    {
        match self {
            DvsPolarity::Off => 0,
            DvsPolarity::On => 1,
        }
    }
}

impl SliceView for DvsPolarity {
    open spec fn layout(&self) -> Seq<u8> {
        seq![self.code()]
    }

    fn as_bytes(&self) -> (r: Vec<u8>) {
        let mut r: Vec<u8> = Vec::new();
        r.push(self.as_u8());
        assert(r@ =~= self.layout());
        r
    }
}

/// A brightness change at one pixel.
#[derive(Debug, Clone, Copy, PartialEq, Eq, Structural)]
pub struct DvsEvent {
    pub t: u64,
    pub x: u16,
    pub y: u16,
    pub polarity: DvsPolarity,
}

impl SliceView for DvsEvent {
    /// `t ‖ x ‖ y ‖ polarity`: 13 bytes.
    open spec fn layout(&self) -> Seq<u8> {
        le_bytes_u64(self.t) + le_bytes_u16(self.x) + le_bytes_u16(self.y) + seq![
            self.polarity.code(),
        ]
    }

    fn as_bytes(&self) -> (r: Vec<u8>) {
        let mut r: Vec<u8> = Vec::new();
        push_u64_le(&mut r, self.t);
        push_u16_le(&mut r, self.x);
        push_u16_le(&mut r, self.y);
        r.push(self.polarity.as_u8());
        assert(r@ =~= self.layout());
        r
    }
}

/// Polarity of an ATIS event: a change event or an exposure measurement edge.
#[derive(Debug, Clone, Copy, PartialEq, Eq, Structural)]
pub enum AtisPolarity {
    Off,
    On,
    ExposureStart,
    ExposureEnd,
}

impl AtisPolarity {
    pub open spec fn code(self) -> u8 {
        match self {
            AtisPolarity::Off => 0,
            AtisPolarity::On => 1,
            AtisPolarity::ExposureStart => 2,
            AtisPolarity::ExposureEnd => 3,
        }
    }

    pub fn as_u8(self) -> (r: u8)
        ensures
            r == self.code(),
    {
        match self {
            AtisPolarity::Off => 0,
            AtisPolarity::On => 1,
            AtisPolarity::ExposureStart => 2,
            AtisPolarity::ExposureEnd => 3,
        }
    }
}

impl SliceView for AtisPolarity {
    open spec fn layout(&self) -> Seq<u8> {
        seq![self.code()]
    }

    fn as_bytes(&self) -> (r: Vec<u8>) {
        let mut r: Vec<u8> = Vec::new();
        r.push(self.as_u8());
        assert(r@ =~= self.layout());
        r
    }
}

/// An ATIS event at one pixel.
#[derive(Debug, Clone, Copy, PartialEq, Eq, Structural)]
pub struct AtisEvent {
    pub t: u64,
    pub x: u16,
    pub y: u16,
    pub polarity: AtisPolarity,
}

impl SliceView for AtisEvent {
    open spec fn layout(&self) -> Seq<u8> {
        le_bytes_u64(self.t) + le_bytes_u16(self.x) + le_bytes_u16(self.y) + seq![
            self.polarity.code(),
        ]
    }

    fn as_bytes(&self) -> (r: Vec<u8>) {
        let mut r: Vec<u8> = Vec::new();
        push_u64_le(&mut r, self.t);
        push_u16_le(&mut r, self.x);
        push_u16_le(&mut r, self.y);
        r.push(self.polarity.as_u8());
        assert(r@ =~= self.layout());
        r
    }
}

/// Edge of an external trigger signal.
#[derive(Debug, Clone, Copy, PartialEq, Eq, Structural)]
pub enum TriggerPolarity {
    Falling,
    Rising,
}

impl TriggerPolarity {
    pub open spec fn code(self) -> u8 {
        match self {
            TriggerPolarity::Falling => 0,
            TriggerPolarity::Rising => 1,
        }
    }

    pub fn as_u8(self) -> (r: u8)
        ensures
            r == self.code(),
    {
        match self {
            TriggerPolarity::Falling => 0,
            TriggerPolarity::Rising => 1,
        }
    }
}

impl SliceView for TriggerPolarity {
    open spec fn layout(&self) -> Seq<u8> {
        seq![self.code()]
    }

    fn as_bytes(&self) -> (r: Vec<u8>) {
        let mut r: Vec<u8> = Vec::new();
        r.push(self.as_u8());
        assert(r@ =~= self.layout());
        r
    }
}

/// An edge on one of the sensor's external trigger inputs.
#[derive(Debug, Clone, Copy, PartialEq, Eq, Structural)]
pub struct TriggerEvent {
    pub t: u64,
    pub id: u8,
    pub polarity: TriggerPolarity,
}

impl SliceView for TriggerEvent {
    /// `t ‖ id ‖ polarity`: 10 bytes.
    open spec fn layout(&self) -> Seq<u8> {
        le_bytes_u64(self.t) + seq![self.id, self.polarity.code()]
    }

    fn as_bytes(&self) -> (r: Vec<u8>) {
        let mut r: Vec<u8> = Vec::new();
        push_u64_le(&mut r, self.t);
        r.push(self.id);
        r.push(self.polarity.as_u8());
        assert(r@ =~= self.layout());
        r
    }
}

} // verus!
