use schlaflosigkeit::wave::HEADER_LEN;
use schlaflosigkeit::{ReadError, ReadErrorKind, WaveMetaReader};

fn header(channels: u16, sample_rate: u32, bits_per_sample: u16, data_length: u32) -> Vec<u8> {
    let mut b = Vec::new();
    b.extend_from_slice(b"RIFF");
    b.extend_from_slice(&(36 + data_length).to_le_bytes());
    b.extend_from_slice(b"WAVE");
    b.extend_from_slice(b"fmt ");
    b.extend_from_slice(&16u32.to_le_bytes());
    b.extend_from_slice(&1u16.to_le_bytes());
    b.extend_from_slice(&channels.to_le_bytes());
    b.extend_from_slice(&sample_rate.to_le_bytes());
    let block_align = channels as u32 * (bits_per_sample as u32 / 8);
    b.extend_from_slice(&(sample_rate * block_align).to_le_bytes());
    b.extend_from_slice(&(block_align as u16).to_le_bytes());
    b.extend_from_slice(&bits_per_sample.to_le_bytes());
    b.extend_from_slice(b"data");
    b.extend_from_slice(&data_length.to_le_bytes());
    b
}

fn format_error(b: &[u8]) -> ReadErrorKind {
    match WaveMetaReader::from_bytes(b) {
        Err(ReadError::Format(kind)) => kind,
        other => panic!("expected a format error, got {:?}", other.map(|m| m.get_sample_count())),
    }
}

#[test]
fn header_length_is_forty_four() {
    assert_eq!(header(2, 44100, 16, 0).len(), HEADER_LEN);
}

#[test]
fn cd_quality_second_lasts_one_second() {
    let m = WaveMetaReader::from_bytes(&header(2, 44100, 16, 176400)).unwrap();
    assert_eq!(m.get_channels(), 2);
    assert_eq!(m.get_sample_rate(), 44100);
    assert_eq!(m.get_bits_per_sample(), 16);
    assert_eq!(m.get_data_length(), 176400);
    assert_eq!(m.get_sample_count(), 44100);
    assert_eq!(m.get_whole_seconds(), 1);
    let duration = m.get_sample_count() as f64 / m.get_sample_rate() as f64;
    assert_eq!(duration, 1.0);
}

#[test]
fn cd_quality_second_ignores_skipped_fields() {
    let mut b = header(2, 44100, 16, 176400);
    for i in 4..8 {
        b[i] = 0xff;
    }
    for i in 16..22 {
        b[i] = 0xaa;
    }
    for i in 28..34 {
        b[i] = 0x55;
    }
    let m = WaveMetaReader::from_bytes(&b).unwrap();
    assert_eq!(m.get_sample_count(), 44100);
    assert_eq!(m.get_whole_seconds(), 1);
}

#[test]
fn not_riff_is_refused_first() {
    let mut b = header(2, 44100, 16, 176400);
    b[3] = b'X';
    assert_eq!(format_error(&b), ReadErrorKind::NotARiffFile);
    assert_eq!(format_error(b"RIFX"), ReadErrorKind::NotARiffFile);
    assert_eq!(format_error(b"OggS and more bytes"), ReadErrorKind::NotARiffFile);
}

#[test]
fn damaged_data_tag_is_no_data_chunk() {
    let mut b = header(2, 44100, 16, 176400);
    b[36] = b'D';
    assert_eq!(format_error(&b), ReadErrorKind::NoDataChunk);
    let mut c = header(2, 44100, 16, 176400);
    c[36..40].copy_from_slice(b"LIST");
    assert_eq!(format_error(&c), ReadErrorKind::NoDataChunk);
}

#[test]
fn wave_and_fmt_tags_are_checked() {
    let mut b = header(1, 8000, 8, 8000);
    b[8..12].copy_from_slice(b"AVI ");
    assert_eq!(format_error(&b), ReadErrorKind::NotAWaveFile);
    let mut c = header(1, 8000, 8, 8000);
    c[12..16].copy_from_slice(b"fmt\0");
    assert_eq!(format_error(&c), ReadErrorKind::NoFormatChunk);
}

#[test]
fn short_headers_are_truncated() {
    let b = header(2, 44100, 16, 176400);
    for n in [0usize, 3, 4, 11, 12, 15, 16, 39, 40, 43] {
        assert_eq!(format_error(&b[..n]), ReadErrorKind::TruncatedHeader, "length {}", n);
    }
    assert!(WaveMetaReader::from_bytes(&b[..44]).is_ok());
}

#[test]
fn degenerate_formats_are_refused() {
    assert_eq!(format_error(&header(0, 44100, 16, 100)), ReadErrorKind::DegenerateFormat);
    assert_eq!(format_error(&header(2, 0, 16, 100)), ReadErrorKind::DegenerateFormat);
    assert_eq!(format_error(&header(2, 44100, 4, 100)), ReadErrorKind::DegenerateFormat);
    assert_eq!(format_error(&header(2, 44100, 0, 100)), ReadErrorKind::DegenerateFormat);
}

#[test]
fn fields_are_little_endian() {
    let m = WaveMetaReader::from_bytes(&header(0x0102, 0x0a0b0c0d, 24, 0x01020304)).unwrap();
    assert_eq!(m.get_channels(), 0x0102);
    assert_eq!(m.get_sample_rate(), 0x0a0b0c0d);
    assert_eq!(m.get_bits_per_sample(), 24);
    assert_eq!(m.get_data_length(), 0x01020304);
    assert_eq!(m.get_sample_count(), 0x01020304 / 3 / 0x0102);
}

#[test]
fn whole_seconds_round_down() {
    let m = WaveMetaReader::from_bytes(&header(1, 48000, 16, 2 * 48000 * 90 + 95999)).unwrap();
    assert_eq!(m.get_sample_count(), 48000 * 90 + 47999);
    assert_eq!(m.get_whole_seconds(), 90);
}

#[test]
fn trailing_bytes_are_ignored() {
    let mut b = header(2, 44100, 16, 176400);
    b.extend_from_slice(&[1, 2, 3, 4, 5]);
    assert_eq!(WaveMetaReader::from_bytes(&b).unwrap().get_whole_seconds(), 1);
}

#[test]
fn error_kind_texts() {
    assert_eq!(ReadErrorKind::NotARiffFile.to_string(), "not a RIFF file");
    assert_eq!(ReadErrorKind::NotAWaveFile.to_string(), "not a WAVE file");
    assert_eq!(ReadErrorKind::NoFormatChunk.to_string(), "no format chunk found");
    assert_eq!(ReadErrorKind::NoDataChunk.to_string(), "no data chunk found");
    assert_eq!(ReadErrorKind::TruncatedHeader.to_string(), "header ends early");
    assert_eq!(ReadErrorKind::DegenerateFormat.to_string(), "degenerate format");
}

#[test]
fn error_descriptions() {
    assert_eq!(
        ReadError::Format(ReadErrorKind::NoDataChunk).describe(),
        "Format error: no data chunk found"
    );
    assert_eq!(ReadError::Io("file not found".to_string()).describe(), "IO error: file not found");
}
