use schlaflosigkeit::batch::timestamp_fields;
use schlaflosigkeit::{
    AnnotationBatch, FileNamePattern, LabelTime, ReadError, ReadErrorKind, SkipReason,
};

fn header(channels: u16, sample_rate: u32, bits_per_sample: u16, data_length: u32) -> Vec<u8> {
    let mut b = Vec::new();
    b.extend_from_slice(b"RIFF");
    b.extend_from_slice(&(36 + data_length).to_le_bytes());
    b.extend_from_slice(b"WAVE");
    b.extend_from_slice(b"fmt ");
    b.extend_from_slice(&16u32.to_le_bytes());
    b.extend_from_slice(&1u16.to_le_bytes());
    b.extend_from_slice(&channels.to_le_bytes());
    b.extend_from_slice(&sample_rate.to_le_bytes());
    let block_align = channels as u32 * (bits_per_sample as u32 / 8);
    b.extend_from_slice(&(sample_rate * block_align).to_le_bytes());
    b.extend_from_slice(&(block_align as u16).to_le_bytes());
    b.extend_from_slice(&bits_per_sample.to_le_bytes());
    b.extend_from_slice(b"data");
    b.extend_from_slice(&data_length.to_le_bytes());
    b
}

fn seconds_header(seconds: u32) -> Vec<u8> {
    header(2, 48000, 16, seconds * 192000)
}

#[test]
fn base_time_from_recording_name() {
    let p = FileNamePattern::new().unwrap();
    let t = p.base_time("/rec/20210101083000_123456_c00d00.wav").unwrap();
    assert_eq!(t.get_seconds(), 1609489800);
    assert_eq!(t, LabelTime::from_civil(2021, 1, 1, 8, 30, 0).unwrap());
}

#[test]
fn base_time_takes_the_last_timestamp() {
    let p = FileNamePattern::new().unwrap();
    let t = p.base_time("/20200101000000_old/20210101083000_1.wav").unwrap();
    assert_eq!(t.get_seconds(), 1609489800);
}

#[test]
fn names_without_a_valid_timestamp_have_no_base_time() {
    let p = FileNamePattern::new().unwrap();
    assert!(p.base_time("/rec/notes.txt").is_none());
    assert!(p.base_time("/rec/20210101083000.wav").is_none());
    assert!(p.base_time("/rec/20210101083000_1.mp3").is_none());
    assert!(p.base_time("/rec/20211301000000_1.wav").is_none());
    assert!(p.base_time("/rec/20210230000000_1.wav").is_none());
    assert!(p.base_time("/rec/20210101250000_1.wav").is_none());
}

#[test]
fn files_are_selected_in_name_order() {
    let p = FileNamePattern::new().unwrap();
    let names = vec![
        "/rec/20210101090000_1_c00d00.wav".to_string(),
        "/rec/notes.txt".to_string(),
        "/rec/20210101083000_2_c00d00.wav".to_string(),
        "/rec/20211301000000_3_c00d00.wav".to_string(),
    ];
    let selected = p.select_files(names);
    assert_eq!(selected.len(), 2);
    assert_eq!(selected[0].0, "/rec/20210101083000_2_c00d00.wav");
    assert_eq!(selected[0].1.get_seconds(), 1609489800);
    assert_eq!(selected[1].0, "/rec/20210101090000_1_c00d00.wav");
    assert_eq!(selected[1].1.get_seconds(), 1609491600);
}

#[test]
fn selecting_from_no_files_gives_none() {
    let p = FileNamePattern::new().unwrap();
    assert!(p.select_files(Vec::new()).is_empty());
}

#[test]
fn batch_chains_files_and_skips_bad_ones() {
    let p = FileNamePattern::new().unwrap();
    let mut batch = AnnotationBatch::new(false, true);
    assert_eq!(batch.get_next_start(), 0);

    let t1 = p.base_time("/rec/20210101083000_1.wav").unwrap();
    let first = batch.annotate(&seconds_header(10), t1).unwrap();
    assert_eq!(first.len(), 1);
    assert_eq!(first[0].get_label_line(), "0.00\t10.00\t08:30:00 - 08:30:10\n");
    assert_eq!(batch.get_next_start(), 10);

    let mut bad = seconds_header(5);
    bad[12..16].copy_from_slice(b"junk");
    assert_eq!(
        batch.annotate(&bad, t1).unwrap_err(),
        SkipReason::Unreadable(ReadError::Format(ReadErrorKind::NoFormatChunk))
    );
    assert_eq!(batch.get_next_start(), 10);

    let t2 = p.base_time("/rec/20210101090000_2.wav").unwrap();
    let second = batch.annotate(&seconds_header(20), t2).unwrap();
    assert_eq!(second[0].get_label_line(), "10.00\t30.00\t09:00:00 - 09:00:20\n");
    assert_eq!(batch.get_next_start(), 30);
}

#[test]
fn batch_with_sub_markers() {
    let mut batch = AnnotationBatch::new(true, false);
    let t = LabelTime::from_civil(2021, 6, 15, 22, 0, 0).unwrap();
    let labels = batch.annotate(&seconds_header(600), t).unwrap();
    assert_eq!(labels.len(), 6);
    assert_eq!(labels[0].get_label_line(), "0.00\t0.00\t15.06.2021 22:00:00\n");
    assert_eq!(labels[5].get_label_line(), "0.00\t0.00\t15.06.2021 22:08:20\n");
    assert_eq!(batch.get_next_start(), 600);
}

#[test]
fn timestamp_fields_from_groups() {
    let groups: Vec<Option<String>> =
        ["2021", "01", "02", "08", "30", "59"].iter().map(|s| Some(s.to_string())).collect();
    assert_eq!(timestamp_fields(&groups), Some((2021, 1, 2, 8, 30, 59)));
    assert_eq!(timestamp_fields(&groups[..5].to_vec()), None);
    let mut odd = groups.clone();
    odd[0] = Some("\u{0662}\u{0660}\u{0662}\u{0661}".to_string());
    assert_eq!(timestamp_fields(&odd), None);
    let mut empty = groups.clone();
    empty[3] = Some(String::new());
    assert_eq!(timestamp_fields(&empty), None);
    let mut absent = groups.clone();
    absent[5] = None;
    assert_eq!(timestamp_fields(&absent), None);
}

#[test]
fn patterns_compile() {
    assert!(FileNamePattern::new().is_some());
    assert!(schlaflosigkeit::CardListingPattern::new().is_some());
    assert!(schlaflosigkeit::batch::FILE_NAME_PATTERN.ends_with(".wav"));
}
