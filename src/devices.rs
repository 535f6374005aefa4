//! Recording setup: the sound cards a listing names, which configured
//! inputs they can serve, and the arguments of a recording run.
use vstd::prelude::*;
use std::collections::HashMap;

use crate::batch::group_number;
use crate::text::{decimal, parse_decimal, push_decimal};

verus! {

broadcast use vstd::std_specs::hash::group_hash_axioms;

#[verifier::external_type_specification]
#[verifier::external_body]
pub struct ExBytesRegex(regex::bytes::Regex);

/// No usable sound card could be found.
#[derive(Debug, Clone, Copy, PartialEq, Eq, Structural)]
pub struct AudioDeviceError;

impl AudioDeviceError {
    pub fn message(&self) -> (r: &'static str)
        ensures
            r@ == "unknown audio device error"@,
    {
        "unknown audio device error"
    }
}

/// The pattern of the lines of an `arecord -l` listing that name a card
/// and one of its devices.
pub const CARD_LISTING_PATTERN: &'static str = "card (\\d*):.*device (\\d*):";

/// The first two capture groups of each successive match of `pattern` in
/// `text`, each read as text by `String::from_utf8_lossy`.
pub uninterp spec fn regex_all_captures_two(pattern: Seq<char>, text: Seq<u8>) -> Seq<
    (Seq<char>, Seq<char>),
>;

/// The card and device numbers, as text, of each `card N: ... device M:`
/// line of a device listing, in order.
pub open spec fn card_listing_groups(listing: Seq<u8>) -> Seq<(Seq<char>, Seq<char>)> {
    regex_all_captures_two(CARD_LISTING_PATTERN@, listing)
}

/// The devices a listing names, keyed by card; a later line for a card
/// replaces an earlier one. `None` where a number is not one from 0 to 255.
pub open spec fn card_map(groups: Seq<(Seq<char>, Seq<char>)>) -> Option<Map<u8, (u8, u8)>>
    decreases groups.len(),
{
    if groups.len() == 0 {
        Some(Map::empty())
    } else {
        match card_map(groups.drop_last()) {
            Some(m) => match (group_number(groups.last().0, 255), group_number(groups.last().1, 255)) {
                (Some(card), Some(device)) => Some(m.insert(card as u8, (card as u8, device as u8))),
                _ => None,
            },
            None => None,
        }
    }
}

proof fn lemma_card_map_prefix_none(groups: Seq<(Seq<char>, Seq<char>)>, i: int)
    requires
        0 <= i <= groups.len(),
        card_map(groups.take(i)) is None,
    ensures
        card_map(groups) is None,
    decreases groups.len(),
{
    if i < groups.len() {
        assert(groups.drop_last().take(i) =~= groups.take(i));
        lemma_card_map_prefix_none(groups.drop_last(), i);
    } else {
        assert(groups.take(i) =~= groups);
    }
}

/// Recognises the `card N: ... device M:` lines of an `arecord -l` listing.
pub struct CardListingPattern {
    regex: regex::bytes::Regex,
}

/// Relies on `regex::bytes::Regex::new`, which fails only on a pattern
/// with a syntax error or one whose compiled form is over the size limit;
/// the listing pattern is neither.
#[verifier::external_body]
fn compile_bytes_regex(pattern: &str) -> (r: Option<regex::bytes::Regex>)
    requires
        pattern@ == CARD_LISTING_PATTERN@,
    ensures
        r is Some,
{
    regex::bytes::Regex::new(pattern).ok()
}

/// Relies on `regex::bytes::Regex::captures_iter` with the pattern that
/// `CardListingPattern::new` compiles: its two groups of each match in order,
/// each read as text by `String::from_utf8_lossy`. Both groups take part in
/// every match, so indexing them cannot fail.
#[verifier::external_body]
fn card_groups(pattern: &CardListingPattern, listing: &[u8]) -> (r: Vec<(String, String)>)
    ensures
        r@.map_values(|p: (String, String)| (p.0@, p.1@)) == regex_all_captures_two(
            CARD_LISTING_PATTERN@,
            listing@,
        ),
{
    pattern.regex.captures_iter(listing).map(
        |c| (String::from_utf8_lossy(&c[1]).to_string(), String::from_utf8_lossy(&c[2]).to_string()),
    ).collect()
}

impl CardListingPattern {
    /// Compiles `CARD_LISTING_PATTERN`.
    pub fn new() -> (r: Option<CardListingPattern>)
        ensures
            r is Some,
    {
        match compile_bytes_regex(CARD_LISTING_PATTERN) {
            Some(regex) => Some(CardListingPattern { regex }),
            None => None,
        }
    }

    /// The devices of a listing, keyed by card number; fails where the
    /// listing names none, or names a number outside 0 to 255.
    pub fn available_cards(&self, listing: &[u8]) -> (r: Result<HashMap<u8, (u8, u8)>, AudioDeviceError>)
        ensures
            match card_map(card_listing_groups(listing@)) {
                Some(m) => if m.is_empty() {
                    r == Err::<HashMap<u8, (u8, u8)>, AudioDeviceError>(AudioDeviceError)
                } else {
                    r matches Ok(d) && d@ == m
                },
                None => r == Err::<HashMap<u8, (u8, u8)>, AudioDeviceError>(AudioDeviceError),
            },
    {
        let groups = card_groups(self, listing);
        cards_from_groups(&groups)
    }
}

/// The devices that the `(card, device)` number texts of a listing name,
/// keyed by card; fails where there are none, or a number is outside 0 to
/// 255.
pub fn cards_from_groups(groups: &Vec<(String, String)>) -> (r: Result<HashMap<u8, (u8, u8)>, AudioDeviceError>)
    ensures
        match card_map(groups@.map_values(|p: (String, String)| (p.0@, p.1@))) {
            Some(m) => if m.is_empty() {
                r == Err::<HashMap<u8, (u8, u8)>, AudioDeviceError>(AudioDeviceError)
            } else {
                r matches Ok(d) && d@ == m
            },
            None => r == Err::<HashMap<u8, (u8, u8)>, AudioDeviceError>(AudioDeviceError),
        },
{
    let ghost g = groups@.map_values(|p: (String, String)| (p.0@, p.1@));
    let mut devices: HashMap<u8, (u8, u8)> = HashMap::new();
    let mut i: usize = 0;
    assert(g.take(0) =~= Seq::<(Seq<char>, Seq<char>)>::empty());
    while i < groups.len()
        invariant
            g == groups@.map_values(|p: (String, String)| (p.0@, p.1@)),
            i <= groups@.len(),
            card_map(g.take(i as int)) == Some(devices@),
        decreases groups@.len() - i,
    {
        assert(g.take(i + 1).drop_last() =~= g.take(i as int));
        assert(g.take(i + 1).last() == (groups@[i as int].0@, groups@[i as int].1@));
        let card = match parse_decimal(groups[i].0.as_str(), 255) {
            Some(v) => v as u8,
            None => {
                proof {
                    lemma_card_map_prefix_none(g, i + 1);
                }
                return Err(AudioDeviceError);
            },
        };
        let device = match parse_decimal(groups[i].1.as_str(), 255) {
            Some(v) => v as u8,
            None => {
                proof {
                    lemma_card_map_prefix_none(g, i + 1);
                }
                return Err(AudioDeviceError);
            },
        };
        devices.insert(card, (card, device));
        i = i + 1;
    }
    assert(g.take(groups@.len() as int) =~= g);
    if devices.is_empty() {
        return Err(AudioDeviceError);
    }
    Ok(devices)
}

/// The card is available and its device is the one asked for.
pub fn is_valid_device_selection(
    available_audio_devices: &HashMap<u8, (u8, u8)>,
    audio_card: u8,
    audio_device: u8,
) -> (r: bool)
    ensures
        r == (available_audio_devices@.contains_key(audio_card)
            && available_audio_devices@[audio_card].1 == audio_device),
{
    match available_audio_devices.get(&audio_card) {
        Some(entry) => entry.1 == audio_device,
        None => false,
    }
}

/// How one input is recorded.
#[derive(Debug, Default, Clone, Copy, PartialEq, Eq, Structural)]
pub struct RecordingDeviceConfiguration {
    pub card: u8,
    pub device: u8,
    pub mono: bool,
}

impl RecordingDeviceConfiguration {
    pub fn default_device() -> (r: u8)
        ensures
            r == 0,
    {
        0
    }

    pub fn default_card() -> (r: u8)
        ensures
            r == 0,
    {
        0
    }

    pub fn default_mono() -> (r: bool)
        ensures
            !r,
    {
        false
    }
}

/// No two inputs share a name.
pub open spec fn unique_names(inputs: Seq<(String, RecordingDeviceConfiguration)>) -> bool {
    forall|i: int, j: int|
        0 <= i < j < inputs.len() ==> #[trigger] inputs[i].0@ != #[trigger] inputs[j].0@
}

/// A project: where recordings go, and the named inputs to record.
#[derive(Debug, Default, Clone)]
pub struct InsomniaProject {
    pub data_directory: String,
    /// The inputs by name; names are unique (`unique_names`), as the keys of
    /// the project file's input table are.
    pub input: Vec<(String, RecordingDeviceConfiguration)>,
}

impl InsomniaProject {
    /// One input, `default_device`: card 0, device 0, in stereo.
    pub fn default_input() -> (r: Vec<(String, RecordingDeviceConfiguration)>)
        ensures
            r@.len() == 1,
            unique_names(r@),
            r@[0].0@ == "default_device"@,
            r@[0].1 == (RecordingDeviceConfiguration { card: 0, device: 0, mono: false }),
    {
        let mut inputs: Vec<(String, RecordingDeviceConfiguration)> = Vec::new();
        inputs.push(
            (
                String::from_str("default_device"),
                RecordingDeviceConfiguration {
                    card: RecordingDeviceConfiguration::default_card(),
                    device: RecordingDeviceConfiguration::default_device(),
                    mono: RecordingDeviceConfiguration::default_mono(),
                },
            ),
        );
        inputs
    }
}

/// Shortest and longest recording, in minutes.
pub const MIN_RECORDING_MINUTES: u8 = 1;

pub const MAX_RECORDING_MINUTES: u8 = 60;

/// The length in seconds of recordings of `minutes` minutes; `None` outside
/// 1 to 60 minutes.
pub fn recording_duration(minutes: u8) -> (r: Option<u32>)
    ensures
        r is Some <==> MIN_RECORDING_MINUTES <= minutes <= MAX_RECORDING_MINUTES,
        r matches Some(s) ==> s == 60 * minutes,
{
    if MIN_RECORDING_MINUTES <= minutes && minutes <= MAX_RECORDING_MINUTES {
        Some(60 * minutes as u32)
    } else {
        None
    }
}

/// The machine offers the card and device of an input.
pub open spec fn serves(available: Map<u8, (u8, u8)>, config: RecordingDeviceConfiguration) -> bool {
    available.contains_key(config.card) && available[config.card].1 == config.device
}

/// The first configured input whose card and device the machine does not
/// offer, as `(card, device)`; `None` when all of them are offered.
pub fn first_invalid_input(
    inputs: &Vec<(String, RecordingDeviceConfiguration)>,
    available_audio_devices: &HashMap<u8, (u8, u8)>,
) -> (r: Option<(u8, u8)>)
    ensures
        r is None <==> forall|i: int|
            0 <= i < inputs@.len() ==> serves(available_audio_devices@, #[trigger] inputs@[i].1),
        r matches Some(p) ==> exists|i: int|
            0 <= i < inputs@.len() && #[trigger] inputs@[i].1 == (RecordingDeviceConfiguration {
                card: p.0,
                device: p.1,
                mono: inputs@[i].1.mono,
            }) && !serves(available_audio_devices@, inputs@[i].1),
{
    let mut i: usize = 0;
    while i < inputs.len()
        invariant
            i <= inputs@.len(),
            forall|j: int|
                0 <= j < i ==> serves(available_audio_devices@, #[trigger] inputs@[j].1),
        decreases inputs@.len() - i,
    {
        let config = inputs[i].1;
        if !is_valid_device_selection(available_audio_devices, config.card, config.device) {
            assert(inputs@[i as int].1 == (RecordingDeviceConfiguration {
                card: config.card,
                device: config.device,
                mono: inputs@[i as int].1.mono,
            }));
            return Some((config.card, config.device));
        }
        i = i + 1;
    }
    None
}

/// `n` written with at least two digits.
pub open spec fn padded_two(n: nat) -> Seq<char> {
    if n < 10 {
        seq!['0'] + decimal(n)
    } else {
        decimal(n)
    }
}

fn push_padded_two(out: &mut String, n: u8)
    ensures
        final(out)@ == old(out)@ + padded_two(n as nat),
{
    if n < 10 {
        out.append("0");
        proof {
            reveal_strlit("0");
        }
    }
    push_decimal(out, n as u64);
    assert(out@ =~= old(out)@ + padded_two(n as nat));
}

/// The file name of a recording: `<prefix>_cCCdDD.wav`.
pub fn recording_file_name(prefix: &str, card: u8, device: u8) -> (r: String)
    ensures
        r@ == prefix@ + seq!['_', 'c'] + padded_two(card as nat) + seq!['d'] + padded_two(
            device as nat,
        ) + seq!['.', 'w', 'a', 'v'],
{
    let mut name = String::from_str(prefix);
    name.append("_c");
    push_padded_two(&mut name, card);
    name.append("d");
    push_padded_two(&mut name, device);
    name.append(".wav");
    proof {
        reveal_strlit("_c");
        reveal_strlit("d");
        reveal_strlit(".wav");
    }
    assert(name@ =~= prefix@ + seq!['_', 'c'] + padded_two(card as nat) + seq!['d'] + padded_two(
        device as nat,
    ) + seq!['.', 'w', 'a', 'v']);
    name
}

/// The arguments of an `arecord` run: device, length in seconds, 16-bit
/// little-endian samples at 44100 Hz, the output file, then mono or stereo.
pub fn record_arguments(card: u8, device: u8, duration_in_seconds: u32, mono: bool, output_file: &str) -> (r: Vec<String>)
    ensures
        r@.len() == 6,
        r@[0]@ == seq!['-', 'D', 'h', 'w', ':'] + decimal(card as nat) + seq![','] + decimal(
            device as nat,
        ),
        r@[1]@ == seq!['-', 'd'] + decimal(duration_in_seconds as nat),
        r@[2]@ == "-fS16_LE"@,
        r@[3]@ == "-r44100"@,
        r@[4]@ == output_file@,
        r@[5]@ == if mono {
            "-c1"@
        } else {
            "-c2"@
        },
{
    let mut hw = String::from_str("-Dhw:");
    push_decimal(&mut hw, card as u64);
    hw.append(",");
    push_decimal(&mut hw, device as u64);
    let mut length = String::from_str("-d");
    push_decimal(&mut length, duration_in_seconds as u64);
    proof {
        reveal_strlit("-Dhw:");
        reveal_strlit(",");
        reveal_strlit("-d");
    }
    assert(hw@ =~= seq!['-', 'D', 'h', 'w', ':'] + decimal(card as nat) + seq![','] + decimal(
        device as nat,
    ));
    assert(length@ =~= seq!['-', 'd'] + decimal(duration_in_seconds as nat));
    let mut args: Vec<String> = Vec::new();
    args.push(hw);
    args.push(length);
    args.push(String::from_str("-fS16_LE"));
    args.push(String::from_str("-r44100"));
    args.push(String::from_str(output_file));
    if mono {
        args.push(String::from_str("-c1"));
    } else {
        args.push(String::from_str("-c2"));
    }
    args
}

/// Seconds to wait from `second` past the minute to the next full minute.
pub fn seconds_until_full_minute(second: u32) -> (r: u64)
    requires
        second <= 60,
    ensures
        r == 60 - second,
{
    (60 - second) as u64
}

} // verus!
