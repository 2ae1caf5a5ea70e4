use neuromorphic_drivers::configuration::Flagged;
use neuromorphic_drivers::devices::prophesee_evk4;
use neuromorphic_drivers::error;
use neuromorphic_drivers::flag::Flag;
use neuromorphic_drivers::structured_array::{dvs_events_dtype, trigger_events_dtype};

#[test]
fn first_error_is_kept_until_loaded() {
    let mut flag: Flag<String, u32> = Flag::new();
    assert_eq!(flag.load_error(), Ok(()));
    flag.store_error_if_not_set("first".to_owned());
    flag.store_error_if_not_set("second".to_owned());
    assert_eq!(flag.load_error(), Err("first".to_owned()));
    assert_eq!(flag.load_error(), Ok(()));
    flag.store_error_if_not_set("third".to_owned());
    assert_eq!(flag.load_error(), Err("third".to_owned()));
}

#[test]
fn warning_is_taken() {
    let mut flag: Flag<String, u32> = Flag::default();
    assert_eq!(flag.load_warning(), None);
    flag.store_warning_if_not_set(1);
    flag.store_warning_if_not_set(2);
    assert_eq!(flag.load_warning(), Some(1));
    assert_eq!(flag.load_warning(), None);
    assert_eq!(flag.load_error(), Ok(()));
}

#[test]
fn error_flag_load_does_not_clear() {
    let mut flag: error::Flag<u8> = error::Flag::new();
    assert_eq!(flag.load(), None);
    flag.store_if_not_set(3);
    flag.store_if_not_set(4);
    assert_eq!(flag.load(), Some(3));
    assert_eq!(flag.load(), Some(3));
}

#[test]
fn configuration_updates_coalesce() {
    let mut slot = Flagged::new(1u32);
    assert_eq!(slot.take_update(), None);
    slot.update(2);
    slot.update(3);
    assert_eq!(slot.take_update(), Some(3));
    assert_eq!(slot.take_update(), None);
}

#[test]
fn record_sizes() {
    assert_eq!(dvs_events_dtype().size(), 13);
    assert_eq!(trigger_events_dtype().size(), 10);
    assert_eq!(dvs_events_dtype().0[3].name, "on");
}

#[test]
fn evk4_profile() {
    let properties = prophesee_evk4::properties();
    assert_eq!((properties.width, properties.height), (1280, 720));
    assert_eq!(properties.default_configuration.biases.pr, 0x7C);
    assert_eq!(prophesee_evk4::default_usb_configuration().ring_size, 4096);
    assert_eq!(prophesee_evk4::Clock::External.code(), 2);
    assert_eq!(prophesee_evk4::PRODUCT_ID, 0x00f5);
}
