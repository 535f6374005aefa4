//! Reading the format of a RIFF/WAVE file from the bytes of its header.
//!
//! The header is read with a fixed layout: a 16-byte `fmt ` chunk followed
//! directly by the `data` chunk, 44 bytes in all.
use vstd::prelude::*;

verus! {

/// Number of header bytes the fixed layout reads.
pub const HEADER_LEN: usize = 44;

/// Why a WAVE header could not be read.
#[derive(Debug, Clone, PartialEq, Eq)]
pub enum ReadError {
    Format(ReadErrorKind),
    /// Opening or reading the file failed; holds the system's message.
    Io(String),
}

/// The structural faults a header can have.
#[derive(Debug, Clone, Copy, PartialEq, Eq, Structural)]
pub enum ReadErrorKind {
    NotARiffFile,
    NotAWaveFile,
    NoFormatChunk,
    NoDataChunk,
    /// The bytes end before a field the layout expects.
    TruncatedHeader,
    /// Zero channels, a bit depth under 8, or a zero sample rate.
    DegenerateFormat,
}

impl ReadErrorKind {
    pub open spec fn spec_text(self) -> Seq<char> {
        match self {
            ReadErrorKind::NotARiffFile => "not a RIFF file"@,
            ReadErrorKind::NotAWaveFile => "not a WAVE file"@,
            ReadErrorKind::NoFormatChunk => "no format chunk found"@,
            ReadErrorKind::NoDataChunk => "no data chunk found"@,
            ReadErrorKind::TruncatedHeader => "header ends early"@,
            ReadErrorKind::DegenerateFormat => "degenerate format"@,
        }
    }

    /// A short description of the fault.
    pub fn to_string(&self) -> (r: &'static str)
        ensures
            r@ == self.spec_text(),
    {
        match *self {
            ReadErrorKind::NotARiffFile => "not a RIFF file",
            ReadErrorKind::NotAWaveFile => "not a WAVE file",
            ReadErrorKind::NoFormatChunk => "no format chunk found",
            ReadErrorKind::NoDataChunk => "no data chunk found",
            ReadErrorKind::TruncatedHeader => "header ends early",
            ReadErrorKind::DegenerateFormat => "degenerate format",
        }
    }
}

impl ReadError {
    pub open spec fn spec_description(self) -> Seq<char> {
        match self {
            ReadError::Format(kind) => "Format error: "@ + kind.spec_text(),
            ReadError::Io(message) => "IO error: "@ + message@,
        }
    }

    /// A one-line description of the error.
    pub fn describe(&self) -> (r: String)
        ensures
            r@ == self.spec_description(),
    {
        match self {
            ReadError::Format(kind) => {
                let mut text = String::from_str("Format error: ");
                text.append(kind.to_string());
                text
            },
            ReadError::Io(message) => {
                let mut text = String::from_str("IO error: ");
                text.append(message.as_str());
                text
            },
        }
    }
}

pub open spec fn riff_tag() -> Seq<u8> {
    seq![82u8, 73u8, 70u8, 70u8]
}

pub open spec fn wave_tag() -> Seq<u8> {
    seq![87u8, 65u8, 86u8, 69u8]
}

pub open spec fn fmt_tag() -> Seq<u8> {
    seq![102u8, 109u8, 116u8, 32u8]
}

pub open spec fn data_tag() -> Seq<u8> {
    seq![100u8, 97u8, 116u8, 97u8]
}

/// The four bytes at `at` are `tag`.
pub open spec fn tag_at(b: Seq<u8>, at: int, tag: Seq<u8>) -> bool {
    b.subrange(at, at + 4) == tag
}

/// The little-endian 16-bit value at `at`.
pub open spec fn le16(b: Seq<u8>, at: int) -> nat {
    (b[at] + 256 * b[at + 1]) as nat
}

/// The little-endian 32-bit value at `at`.
pub open spec fn le32(b: Seq<u8>, at: int) -> nat {
    (b[at] + 256 * b[at + 1] + 65536 * b[at + 2] + 16777216 * b[at + 3]) as nat
}

pub open spec fn channels_of(b: Seq<u8>) -> nat {
    le16(b, 22)
}

pub open spec fn sample_rate_of(b: Seq<u8>) -> nat {
    le32(b, 24)
}

pub open spec fn bits_per_sample_of(b: Seq<u8>) -> nat {
    le16(b, 34)
}

pub open spec fn data_length_of(b: Seq<u8>) -> nat {
    le32(b, 40)
}

/// The fault of a header, in the order the fields are read; `None` when
/// the header is sound.
pub open spec fn header_fault(b: Seq<u8>) -> Option<ReadErrorKind> {
    if b.len() < 4 {
        Some(ReadErrorKind::TruncatedHeader)
    } else if !tag_at(b, 0, riff_tag()) {
        Some(ReadErrorKind::NotARiffFile)
    } else if b.len() < 12 {
        Some(ReadErrorKind::TruncatedHeader)
    } else if !tag_at(b, 8, wave_tag()) {
        Some(ReadErrorKind::NotAWaveFile)
    } else if b.len() < 16 {
        Some(ReadErrorKind::TruncatedHeader)
    } else if !tag_at(b, 12, fmt_tag()) {
        Some(ReadErrorKind::NoFormatChunk)
    } else if b.len() < 40 {
        Some(ReadErrorKind::TruncatedHeader)
    } else if !tag_at(b, 36, data_tag()) {
        Some(ReadErrorKind::NoDataChunk)
    } else if b.len() < 44 {
        Some(ReadErrorKind::TruncatedHeader)
    } else if channels_of(b) == 0 || bits_per_sample_of(b) / 8 == 0 || sample_rate_of(b) == 0 {
        Some(ReadErrorKind::DegenerateFormat)
    } else {
        None
    }
}

/// Samples per channel: `data_length / (bits_per_sample / 8) / channels`.
pub open spec fn sample_count(data_length: nat, bits_per_sample: nat, channels: nat) -> nat {
    data_length / (bits_per_sample / 8) / channels
}

/// Whole seconds of playing time that a sound header states.
pub open spec fn header_whole_seconds(b: Seq<u8>) -> nat {
    sample_count(data_length_of(b), bits_per_sample_of(b), channels_of(b)) / sample_rate_of(b)
}

/// Format information of a WAVE file, as its header states it.
pub struct WaveMetaReader {
    data_block_size_in_byte: u32,
    bits_per_sample: u16,
    channels: u16,
    samples_per_second: u32,
    number_of_samples: u32,
}

impl WaveMetaReader {
    #[verifier::type_invariant]
    spec fn well_formed(self) -> bool {
        &&& self.channels >= 1
        &&& self.bits_per_sample >= 8
        &&& self.samples_per_second >= 1
        &&& self.number_of_samples == sample_count(
            self.data_block_size_in_byte as nat,
            self.bits_per_sample as nat,
            self.channels as nat,
        )
    }

    pub closed spec fn spec_channels(self) -> nat {
        self.channels as nat
    }

    pub closed spec fn spec_sample_rate(self) -> nat {
        self.samples_per_second as nat
    }

    pub closed spec fn spec_bits_per_sample(self) -> nat {
        self.bits_per_sample as nat
    }

    pub closed spec fn spec_data_length(self) -> nat {
        self.data_block_size_in_byte as nat
    }

    /// The header describes `b` exactly.
    pub open spec fn describes(self, b: Seq<u8>) -> bool {
        &&& self.spec_channels() == channels_of(b)
        &&& self.spec_sample_rate() == sample_rate_of(b)
        &&& self.spec_bits_per_sample() == bits_per_sample_of(b)
        &&& self.spec_data_length() == data_length_of(b)
    }

    /// Samples per channel that the data chunk holds.
    pub open spec fn spec_sample_count(self) -> nat {
        sample_count(self.spec_data_length(), self.spec_bits_per_sample(), self.spec_channels())
    }

    /// Playing time in whole seconds, rounded down.
    pub open spec fn spec_whole_seconds(self) -> nat {
        self.spec_sample_count() / self.spec_sample_rate()
    }

    /// Reads the format from the first bytes of a WAVE file.
    ///
    /// Fails with the first fault met while reading the fields in order;
    /// bytes past the header are ignored.
    pub fn from_bytes(b: &[u8]) -> (r: Result<WaveMetaReader, ReadError>)
        ensures
            match header_fault(b@) {
                Some(kind) => r == Err::<WaveMetaReader, ReadError>(ReadError::Format(kind)),
                None => r matches Ok(m) && m.describes(b@),
            },
    {
        let n = b.len();
        if n < 4 {
            return Err(ReadError::Format(ReadErrorKind::TruncatedHeader));
        }
        if !tag_matches(b, 0, 82, 73, 70, 70) {
            return Err(ReadError::Format(ReadErrorKind::NotARiffFile));
        }
        if n < 12 {
            return Err(ReadError::Format(ReadErrorKind::TruncatedHeader));
        }
        if !tag_matches(b, 8, 87, 65, 86, 69) {
            return Err(ReadError::Format(ReadErrorKind::NotAWaveFile));
        }
        if n < 16 {
            return Err(ReadError::Format(ReadErrorKind::TruncatedHeader));
        }
        if !tag_matches(b, 12, 102, 109, 116, 32) {
            return Err(ReadError::Format(ReadErrorKind::NoFormatChunk));
        }
        if n < 40 {
            return Err(ReadError::Format(ReadErrorKind::TruncatedHeader));
        }
        if !tag_matches(b, 36, 100, 97, 116, 97) {
            return Err(ReadError::Format(ReadErrorKind::NoDataChunk));
        }
        if n < HEADER_LEN {
            return Err(ReadError::Format(ReadErrorKind::TruncatedHeader));
        }
        let channels = read_u16_le(b, 22);
        let samples_per_second = read_u32_le(b, 24);
        let bits_per_sample = read_u16_le(b, 34);
        let data_block_size_in_byte = read_u32_le(b, 40);
        if channels == 0 || bits_per_sample / 8 == 0 || samples_per_second == 0 {
            return Err(ReadError::Format(ReadErrorKind::DegenerateFormat));
        }
        let bytes_per_sample = (bits_per_sample / 8) as u32;
        let number_of_samples = data_block_size_in_byte / bytes_per_sample / (channels as u32);
        Ok(WaveMetaReader {
            data_block_size_in_byte,
            bits_per_sample,
            channels,
            samples_per_second,
            number_of_samples,
        })
    }

    pub fn get_channels(&self) -> (r: u16)
        ensures
            r == self.spec_channels(),
    {
        self.channels
    }

    pub fn get_sample_rate(&self) -> (r: u32)
        ensures
            r == self.spec_sample_rate(),
    {
        self.samples_per_second
    }

    pub fn get_bits_per_sample(&self) -> (r: u16)
        ensures
            r == self.spec_bits_per_sample(),
    {
        self.bits_per_sample
    }

    pub fn get_data_length(&self) -> (r: u32)
        ensures
            r == self.spec_data_length(),
    {
        self.data_block_size_in_byte
    }

    /// Samples per channel; the playing time is this over the sample rate.
    pub fn get_sample_count(&self) -> (r: u32)
        ensures
            r == self.spec_sample_count(),
    {
        proof {
            use_type_invariant(self);
        }
        self.number_of_samples
    }

    /// Playing time in whole seconds, rounded down.
    pub fn get_whole_seconds(&self) -> (r: u32)
        ensures
            r == self.spec_whole_seconds(),
            self.spec_sample_rate() >= 1,
    {
        proof {
            use_type_invariant(self);
        }
        self.number_of_samples / self.samples_per_second
    }
}

/// Sixteen-bit stereo at 44100 Hz with 176400 data bytes is a sound header
/// that plays for exactly one second: its sample count equals its sample rate.
pub proof fn lemma_one_second_of_cd_audio(b: Seq<u8>)
    requires
        b.len() >= HEADER_LEN,
        tag_at(b, 0, riff_tag()),
        tag_at(b, 8, wave_tag()),
        tag_at(b, 12, fmt_tag()),
        tag_at(b, 36, data_tag()),
        channels_of(b) == 2,
        bits_per_sample_of(b) == 16,
        sample_rate_of(b) == 44100,
        data_length_of(b) == 176400,
    ensures
        header_fault(b) is None,
        forall|m: WaveMetaReader|
            #[trigger] m.describes(b) ==> m.spec_sample_count() == m.spec_sample_rate()
                && m.spec_whole_seconds() == 1,
{
    assert(176400nat / 2 == 88200) by (nonlinear_arith);
    assert(88200nat / 2 == 44100) by (nonlinear_arith);
    assert(44100nat / 44100 == 1) by (nonlinear_arith);
}

/// A file whose first four bytes are not `RIFF` is refused as not a RIFF
/// file, and no byte after the fourth bears on the outcome.
pub proof fn lemma_not_riff_reads_no_further(b: Seq<u8>, c: Seq<u8>)
    requires
        b.len() >= 4,
        c.len() >= 4,
        !tag_at(b, 0, riff_tag()),
        c.subrange(0, 4) == b.subrange(0, 4),
    ensures
        header_fault(b) == Some(ReadErrorKind::NotARiffFile),
        header_fault(c) == header_fault(b),
{
}

/// A header with sound `RIFF`, `WAVE` and `fmt ` tags whose data tag is
/// damaged is refused for want of a data chunk.
pub proof fn lemma_damaged_data_tag(b: Seq<u8>)
    requires
        b.len() >= 40,
        tag_at(b, 0, riff_tag()),
        tag_at(b, 8, wave_tag()),
        tag_at(b, 12, fmt_tag()),
        !tag_at(b, 36, data_tag()),
    ensures
        header_fault(b) == Some(ReadErrorKind::NoDataChunk),
{
}

/// Compares the four bytes at `at` with a tag.
fn tag_matches(b: &[u8], at: usize, t0: u8, t1: u8, t2: u8, t3: u8) -> (r: bool)
    requires
        at + 4 <= b@.len(),
    ensures
        r == tag_at(b@, at as int, seq![t0, t1, t2, t3]),
{
    let r = b[at] == t0 && b[at + 1] == t1 && b[at + 2] == t2 && b[at + 3] == t3;
    proof {
        let s = b@.subrange(at as int, at + 4);
        if r {
            assert(s =~= seq![t0, t1, t2, t3]);
        } else {
            assert(s[0] != t0 || s[1] != t1 || s[2] != t2 || s[3] != t3);
        }
    }
    r
}

fn read_u16_le(b: &[u8], at: usize) -> (r: u16)
    requires
        at + 2 <= b@.len(),
    ensures
        r == le16(b@, at as int),
{
    b[at] as u16 + 256 * (b[at + 1] as u16)
}

fn read_u32_le(b: &[u8], at: usize) -> (r: u32)
    requires
        at + 4 <= b@.len(),
    ensures
        r == le32(b@, at as int),
{
    b[at] as u32 + 256 * (b[at + 1] as u32) + 65536 * (b[at + 2] as u32) + 16777216 * (
    b[at + 3] as u32)
}

} // verus!
