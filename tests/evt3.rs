use neuromorphic_drivers::adapters::evt3::Adapter;
use neuromorphic_drivers::adapters::Adapter as AnyAdapter;
use neuromorphic_drivers::packed;
use neuromorphic_drivers::types::{DvsEvent, DvsPolarity, SliceView, TriggerEvent, TriggerPolarity};

fn words(words: &[u16]) -> Vec<u8> {
    let mut bytes = Vec::new();
    for word in words {
        bytes.extend_from_slice(&word.to_le_bytes());
    }
    bytes
}

fn decode(adapter: &mut Adapter, bytes: &[u8]) -> (Vec<DvsEvent>, Vec<TriggerEvent>) {
    let mut dvs = Vec::new();
    let mut triggers = Vec::new();
    adapter.convert(bytes, &mut dvs, &mut triggers);
    (dvs, triggers)
}

#[test]
fn y_address_alone_emits_nothing() {
    let mut adapter = Adapter::from_dimensions(1280, 720);
    let (dvs, triggers) = decode(&mut adapter, &[0x00, 0x00]);
    assert!(dvs.is_empty());
    assert!(triggers.is_empty());
    // the row is flipped: y = 0 on the wire is the last row; an event at x = 0 shows it
    let (dvs, _) = decode(&mut adapter, &words(&[0x2000]));
    assert_eq!(dvs.len(), 1);
    assert_eq!(dvs[0].y, 719);
}

#[test]
fn single_event_after_y_address() {
    let mut adapter = Adapter::from_dimensions(1280, 720);
    let (dvs, triggers) = decode(&mut adapter, &[0x00, 0x00, 0x00, 0x20]);
    assert_eq!(
        dvs,
        vec![DvsEvent { t: 0, x: 0, y: 719, polarity: DvsPolarity::Off }]
    );
    assert!(triggers.is_empty());
}

#[test]
fn single_event_polarity_on() {
    let mut adapter = Adapter::from_dimensions(1280, 720);
    let (dvs, _) = decode(&mut adapter, &words(&[0x0005, 0x2800 | 17]));
    assert_eq!(
        dvs,
        vec![DvsEvent { t: 0, x: 17, y: 714, polarity: DvsPolarity::On }]
    );
}

#[test]
fn twelve_bit_mask_emits_set_bits_in_order() {
    let mut adapter = Adapter::from_dimensions(1280, 720);
    let (dvs, _) = decode(&mut adapter, &words(&[0x0000, 0x3000, 0x400F]));
    let xs: Vec<u16> = dvs.iter().map(|e| e.x).collect();
    assert_eq!(xs, vec![0, 1, 2, 3]);
    assert!(dvs.iter().all(|e| e.y == 719 && e.t == 0));
    // final x is 12: an 8-bit mask with bit 0 set lands there
    let (dvs, _) = decode(&mut adapter, &words(&[0x5001]));
    assert_eq!(dvs.len(), 1);
    assert_eq!(dvs[0].x, 12);
}

#[test]
fn mask_is_clipped_at_the_right_edge() {
    let mut adapter = Adapter::from_dimensions(10, 10);
    // x = 6, all twelve bits set: only columns 6..9 exist
    let (dvs, _) = decode(&mut adapter, &words(&[0x0000, 0x3006, 0x4FFF]));
    let xs: Vec<u16> = dvs.iter().map(|e| e.x).collect();
    assert_eq!(xs, vec![6, 7, 8, 9]);
    // x is now 18, off the grid: further masks emit nothing
    let (dvs, _) = decode(&mut adapter, &words(&[0x4FFF, 0x5FFF]));
    assert!(dvs.is_empty());
}

#[test]
fn events_off_the_grid_are_dropped() {
    let mut adapter = Adapter::from_dimensions(4, 4);
    let (dvs, _) = decode(&mut adapter, &words(&[0x0007, 0x2000, 0x0001, 0x2009, 0x2003]));
    assert_eq!(
        dvs,
        vec![DvsEvent { t: 0, x: 3, y: 2, polarity: DvsPolarity::Off }]
    );
}

#[test]
fn timestamp_lsb_msb_lsb() {
    let mut adapter = Adapter::from_dimensions(1280, 720);
    let mut times = Vec::new();
    for word in [0x6001u16, 0x8001, 0x6002] {
        let (_, triggers) = decode(&mut adapter, &words(&[word, 0xA000]));
        times.push(triggers[0].t);
    }
    assert_eq!(times, vec![1, 4096, 4098]);
    assert_eq!(adapter.current_t(), 4098);
}

#[test]
fn msb_rollover_counts_an_overflow() {
    let mut adapter = Adapter::from_dimensions(1280, 720);
    // walk the MSB up to 0xFFE in forward steps smaller than half the range
    decode(&mut adapter, &words(&[0x8700, 0x8E00, 0x8FFE]));
    assert_eq!(adapter.current_t(), 0xFFE << 12);
    let (_, triggers) = decode(&mut adapter, &words(&[0x8001, 0xA000]));
    assert!(triggers[0].t >= 1 << 24);
    assert_eq!(triggers[0].t, (1 << 24) | (1 << 12));
}

#[test]
fn spurious_forward_msb_jump_is_ignored() {
    let mut adapter = Adapter::from_dimensions(1280, 720);
    decode(&mut adapter, &words(&[0x8900]));
    assert_eq!(adapter.current_t(), 0);
    // a small backward step is ignored too
    decode(&mut adapter, &words(&[0x8100, 0x80FF]));
    assert_eq!(adapter.current_t(), 0x100 << 12);
}

#[test]
fn time_never_goes_back_on_a_lower_lsb() {
    let mut adapter = Adapter::from_dimensions(1280, 720);
    let (_, triggers) = decode(&mut adapter, &words(&[0x6010, 0xA000, 0x6005, 0xA000]));
    assert_eq!(triggers[0].t, 0x10);
    assert_eq!(triggers[1].t, 0x10);
}

#[test]
fn trigger_word() {
    let mut adapter = Adapter::from_dimensions(1280, 720);
    let (dvs, triggers) = decode(&mut adapter, &words(&[0x6007, 0xA001]));
    assert!(dvs.is_empty());
    assert_eq!(
        triggers,
        vec![TriggerEvent { t: 7, id: 0, polarity: TriggerPolarity::Rising }]
    );
    let (_, triggers) = decode(&mut adapter, &words(&[0xA300]));
    assert_eq!(
        triggers,
        vec![TriggerEvent { t: 7, id: 3, polarity: TriggerPolarity::Falling }]
    );
}

#[test]
fn odd_trailing_byte_is_ignored() {
    let mut adapter = Adapter::from_dimensions(1280, 720);
    let (dvs, _) = decode(&mut adapter, &[0x00, 0x00, 0x00, 0x20, 0x00]);
    assert_eq!(dvs.len(), 1);
    assert_eq!(adapter.events_lengths(&[0x00, 0x20, 0x00]), (1, 0));
}

fn sample_stream() -> Vec<u8> {
    words(&[
        0x8003, 0x6010, 0x0010, 0x2800, 0x3020, 0x40F3, 0x5081, 0xA101, 0x6011, 0x2005, 0x0500,
        0x3000, 0x4FFF, 0x8004, 0x6001, 0xA200, 0x1234, 0x7FFF, 0xBEEF, 0x0100, 0x2010,
    ])
}

#[test]
fn events_lengths_matches_convert() {
    let bytes = sample_stream();
    let adapter = Adapter::from_dimensions(1280, 720);
    let lengths = adapter.events_lengths(&bytes);
    let mut copy = adapter;
    let (dvs, triggers) = decode(&mut copy, &bytes);
    assert_eq!(lengths, (dvs.len(), triggers.len()));
    assert_eq!(lengths, (1 + 6 + 2 + 1 + 1, 2));
}

#[test]
fn events_are_in_time_order_and_on_grid() {
    let bytes = sample_stream();
    let mut adapter = Adapter::from_dimensions(1280, 720);
    let (dvs, triggers) = decode(&mut adapter, &bytes);
    assert!(dvs.windows(2).all(|w| w[0].t <= w[1].t));
    assert!(triggers.windows(2).all(|w| w[0].t <= w[1].t));
    assert!(dvs.iter().all(|e| e.x < 1280 && e.y < 720));
}

#[test]
fn consume_keeps_the_same_clock_as_convert() {
    let bytes = sample_stream();
    let mut converted = Adapter::from_dimensions(1280, 720);
    let mut consumed = Adapter::from_dimensions(1280, 720);
    decode(&mut converted, &bytes);
    consumed.consume(&bytes);
    assert_eq!(converted.current_t(), consumed.current_t());
    let probe = words(&[0xA000]);
    let (_, a) = decode(&mut converted, &probe);
    let (_, b) = decode(&mut consumed, &probe);
    assert_eq!(a, b);
}

#[test]
fn split_stream_gives_the_same_events() {
    let bytes = sample_stream();
    let mut whole = Adapter::from_dimensions(1280, 720);
    let expected = decode(&mut whole, &bytes);
    for split in (0..=bytes.len()).step_by(2) {
        let mut parts = Adapter::from_dimensions(1280, 720);
        let (mut dvs, mut triggers) = decode(&mut parts, &bytes[..split]);
        parts.convert(&bytes[split..], &mut dvs, &mut triggers);
        assert_eq!((dvs, triggers), expected);
        assert_eq!(parts.current_t(), whole.current_t());
    }
}

#[test]
fn packed_records() {
    let event = DvsEvent { t: 0x0102030405060708, x: 0x0A0B, y: 0x0C0D, polarity: DvsPolarity::On };
    assert_eq!(
        event.as_bytes(),
        vec![8, 7, 6, 5, 4, 3, 2, 1, 0x0B, 0x0A, 0x0D, 0x0C, 1]
    );
    let trigger = TriggerEvent { t: 0x1FF, id: 5, polarity: TriggerPolarity::Falling };
    assert_eq!(trigger.as_bytes(), vec![0xFF, 1, 0, 0, 0, 0, 0, 0, 5, 0]);
    assert_eq!(DvsPolarity::Off.as_bytes(), vec![0]);
    assert_eq!(TriggerPolarity::Rising.as_bytes(), vec![1]);
}

#[test]
fn packed_adapter_push_and_take() {
    let mut adapter = packed::Adapter::from(AnyAdapter::from(Adapter::from_dimensions(1280, 720)));
    adapter.push(&words(&[0x6003, 0x0000, 0x2005, 0xA001]));
    let (dvs, triggers) = adapter.take();
    assert_eq!(dvs, vec![3, 0, 0, 0, 0, 0, 0, 0, 5, 0, 0xCF, 0x02, 0]);
    assert_eq!(triggers, vec![3, 0, 0, 0, 0, 0, 0, 0, 0, 1]);
    let (dvs, triggers) = adapter.take();
    assert!(dvs.is_empty() && triggers.is_empty());
    adapter.consume(&words(&[0x6009]));
    assert_eq!(adapter.current_t(), 9);
}
