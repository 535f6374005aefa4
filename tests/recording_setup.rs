use std::collections::HashMap;

use schlaflosigkeit::devices::{
    cards_from_groups, first_invalid_input, record_arguments, recording_duration, recording_file_name,
    seconds_until_full_minute,
};
use schlaflosigkeit::{
    is_valid_device_selection, AudioDeviceError, CardListingPattern, InsomniaProject,
    RecordingDeviceConfiguration,
};

const LISTING: &str = "**** List of CAPTURE Hardware Devices ****\n\
card 0: PCH [HDA Intel PCH], device 0: ALC3246 Analog [ALC3246 Analog]\n  Subdevices: 1/1\n\
card 2: Device [USB Audio Device], device 1: USB Audio [USB Audio]\n  Subdevices: 1/1\n";

#[test]
fn cards_from_a_listing() {
    let p = CardListingPattern::new().unwrap();
    let cards = p.available_cards(LISTING.as_bytes()).unwrap();
    assert_eq!(cards.len(), 2);
    assert_eq!(cards[&0], (0, 0));
    assert_eq!(cards[&2], (2, 1));
}

#[test]
fn later_line_for_a_card_wins() {
    let p = CardListingPattern::new().unwrap();
    let listing = "card 1: A, device 0: x\ncard 1: A, device 3: y\n";
    let cards = p.available_cards(listing.as_bytes()).unwrap();
    assert_eq!(cards.len(), 1);
    assert_eq!(cards[&1], (1, 3));
}

#[test]
fn listing_without_cards_fails() {
    let p = CardListingPattern::new().unwrap();
    assert_eq!(p.available_cards(b"").unwrap_err(), AudioDeviceError);
    assert_eq!(p.available_cards(b"no soundcards found...\n").unwrap_err(), AudioDeviceError);
}

#[test]
fn listing_with_bad_numbers_fails() {
    let p = CardListingPattern::new().unwrap();
    assert_eq!(p.available_cards(b"card 300: X, device 0: y\n").unwrap_err(), AudioDeviceError);
    assert_eq!(p.available_cards(b"card : X, device 0: y\n").unwrap_err(), AudioDeviceError);
    assert_eq!(AudioDeviceError.message(), "unknown audio device error");
}

#[test]
fn device_selection() {
    let mut cards = HashMap::new();
    cards.insert(0u8, (0u8, 0u8));
    cards.insert(2u8, (2u8, 1u8));
    assert!(is_valid_device_selection(&cards, 0, 0));
    assert!(is_valid_device_selection(&cards, 2, 1));
    assert!(!is_valid_device_selection(&cards, 2, 0));
    assert!(!is_valid_device_selection(&cards, 1, 0));
}

#[test]
fn first_input_not_offered() {
    let mut cards = HashMap::new();
    cards.insert(0u8, (0u8, 0u8));
    let good = RecordingDeviceConfiguration { card: 0, device: 0, mono: false };
    let bad = RecordingDeviceConfiguration { card: 1, device: 2, mono: true };
    let inputs = vec![("a".to_string(), good), ("b".to_string(), bad)];
    assert_eq!(first_invalid_input(&inputs, &cards), Some((1, 2)));
    assert_eq!(first_invalid_input(&inputs[..1].to_vec(), &cards), None);
}

#[test]
fn configuration_defaults() {
    assert_eq!(RecordingDeviceConfiguration::default_card(), 0);
    assert_eq!(RecordingDeviceConfiguration::default_device(), 0);
    assert!(!RecordingDeviceConfiguration::default_mono());
    let inputs = InsomniaProject::default_input();
    assert_eq!(inputs.len(), 1);
    assert_eq!(inputs[0].0, "default_device");
    assert_eq!(inputs[0].1, RecordingDeviceConfiguration { card: 0, device: 0, mono: false });
}

#[test]
fn recording_durations() {
    assert_eq!(recording_duration(0), None);
    assert_eq!(recording_duration(1), Some(60));
    assert_eq!(recording_duration(60), Some(3600));
    assert_eq!(recording_duration(61), None);
}

#[test]
fn recording_names_and_arguments() {
    assert_eq!(recording_file_name("20210101083000_123456", 1, 12), "20210101083000_123456_c01d12.wav");
    assert_eq!(recording_file_name("x", 255, 0), "x_c255d00.wav");
    let args = record_arguments(2, 1, 600, true, "/rec/x_c02d01.wav");
    assert_eq!(args, vec!["-Dhw:2,1", "-d600", "-fS16_LE", "-r44100", "/rec/x_c02d01.wav", "-c1"]);
    let stereo = record_arguments(0, 0, 60, false, "y.wav");
    assert_eq!(stereo[5], "-c2");
}

#[test]
fn wait_to_full_minute() {
    assert_eq!(seconds_until_full_minute(0), 60);
    assert_eq!(seconds_until_full_minute(15), 45);
    assert_eq!(seconds_until_full_minute(59), 1);
}

#[test]
fn cards_from_number_texts() {
    let pair = |a: &str, b: &str| (a.to_string(), b.to_string());
    let cards = cards_from_groups(&vec![pair("0", "0"), pair("002", "1")]).unwrap();
    assert_eq!(cards.len(), 2);
    assert_eq!(cards[&2], (2, 1));
    assert_eq!(cards_from_groups(&vec![]).unwrap_err(), AudioDeviceError);
    assert_eq!(cards_from_groups(&vec![pair("0", "0"), pair("256", "0")]).unwrap_err(), AudioDeviceError);
    assert_eq!(cards_from_groups(&vec![pair("1", "")]).unwrap_err(), AudioDeviceError);
}
