//! Labelling a directory of recordings as one track: the files are taken in
//! name order, those whose name holds no timestamp are passed over, and each
//! file starts where the one before it ended.
use vstd::prelude::*;

use crate::annotation::{initial_view, remaining_labels, AnnotationLabel, FileAnnotator};
use crate::clock::{civil_seconds, LabelTime, EARLIEST_SECONDS, LATEST_BASE_SECONDS};
use crate::text::{decimal_value, parse_decimal};
use crate::wave::{header_fault, header_whole_seconds, ReadError};

verus! {

#[verifier::external_type_specification]
#[verifier::external_body]
pub struct ExRegex(regex::Regex);

/// The pattern a recording's path must match: a timestamp
/// `YYYYMMDDHHMMSS` followed by `_`, in a name ending in `.wav`.
pub const FILE_NAME_PATTERN: &'static str = ".*(\\d{4})(\\d{2})(\\d{2})(\\d{2})(\\d{2})(\\d{2})_.*\\.wav";

/// The capture groups, in order, of the first match of `pattern` in `text`,
/// each `None` where it took no part in the match; `None` where nothing
/// matches.
pub uninterp spec fn regex_captures(pattern: Seq<char>, text: Seq<char>) -> Option<
    Seq<Option<Seq<char>>>,
>;

/// `a` sorts before or with `b`, character by character.
pub open spec fn lex_le(a: Seq<char>, b: Seq<char>) -> bool
    decreases a.len(),
{
    if a.len() == 0 {
        true
    } else if b.len() == 0 {
        false
    } else if a[0] != b[0] {
        (a[0] as u32) < (b[0] as u32)
    } else {
        lex_le(a.drop_first(), b.drop_first())
    }
}

pub open spec fn sorted_names(s: Seq<Seq<char>>) -> bool {
    forall|i: int, j: int| 0 <= i < j < s.len() ==> lex_le(#[trigger] s[i], #[trigger] s[j])
}

pub open spec fn name_views(v: Seq<String>) -> Seq<Seq<char>> {
    v.map_values(|s: String| s@)
}

pub open spec fn group_views(v: Seq<Option<String>>) -> Seq<Option<Seq<char>>> {
    v.map_values(
        |g: Option<String>|
            match g {
                Some(s) => Some(s@),
                None => None,
            },
    )
}

/// The number in a timestamp group that took part in a match.
pub open spec fn captured_number(g: Option<Seq<char>>, limit: nat) -> Option<nat> {
    match g {
        Some(text) => group_number(text, limit),
        None => None,
    }
}

/// The number in a timestamp group, when it is one within `limit`.
pub open spec fn group_number(g: Seq<char>, limit: nat) -> Option<nat> {
    match decimal_value(g) {
        Some(v) => if v <= limit {
            Some(v)
        } else {
            None
        },
        None => None,
    }
}

/// The start time, in seconds since 1970-01-01, that a recording's path
/// names, when it names a valid time in the years 0 to 9999.
pub open spec fn base_seconds(path: Seq<char>) -> Option<int> {
    match regex_captures(FILE_NAME_PATTERN@, path) {
        Some(g) => match timestamp_numbers(g) {
            Some(n) => match civil_seconds(
                n.0 as int,
                n.1 as int,
                n.2 as int,
                n.3 as int,
                n.4 as int,
                n.5 as int,
            ) {
                Some(t) => if EARLIEST_SECONDS <= t <= LATEST_BASE_SECONDS {
                    Some(t)
                } else {
                    None
                },
                None => None,
            },
            None => None,
        },
        None => None,
    }
}

/// A path with the start time it names, for the paths that name one.
pub open spec fn timed_path(path: Seq<char>) -> Option<(Seq<char>, int)> {
    match base_seconds(path) {
        Some(t) => Some((path, t)),
        None => None,
    }
}

/// Year, month, day, hour, minute and second of six timestamp groups.
pub open spec fn timestamp_numbers(g: Seq<Option<Seq<char>>>) -> Option<(nat, nat, nat, nat, nat, nat)> {
    if g.len() != 6 {
        None
    } else {
        let year = captured_number(g[0], i32::MAX as nat);
        let month = captured_number(g[1], u32::MAX as nat);
        let day = captured_number(g[2], u32::MAX as nat);
        let hour = captured_number(g[3], u32::MAX as nat);
        let minute = captured_number(g[4], u32::MAX as nat);
        let second = captured_number(g[5], u32::MAX as nat);
        if year is Some && month is Some && day is Some && hour is Some && minute is Some
            && second is Some {
            Some(
                (
                    year->Some_0,
                    month->Some_0,
                    day->Some_0,
                    hour->Some_0,
                    minute->Some_0,
                    second->Some_0,
                ),
            )
        } else {
            None
        }
    }
}

/// Reads one captured group as a number up to `limit`.
fn captured_decimal(group: &Option<String>, limit: u32) -> (r: Option<u32>)
    ensures
        r == match captured_number(
            match group {
                Some(s) => Some(s@),
                None => None,
            },
            limit as nat,
        ) {
            Some(v) => Some(v as u32),
            None => None::<u32>,
        },
{
    match group {
        Some(text) => parse_decimal(text.as_str(), limit),
        None => None,
    }
}

/// Reads the six digit groups of a timestamp: a year up to `i32::MAX`,
/// then five numbers up to `u32::MAX`.
pub fn timestamp_fields(groups: &Vec<Option<String>>) -> (r: Option<
    (u32, u32, u32, u32, u32, u32),
>)
    ensures
        match timestamp_numbers(group_views(groups@)) {
            Some(n) => r == Some(
                (n.0 as u32, n.1 as u32, n.2 as u32, n.3 as u32, n.4 as u32, n.5 as u32),
            ),
            None => r is None,
        },
{
    if groups.len() != 6 {
        return None;
    }
    proof {
        let g = group_views(groups@);
        assert(g[0] == (match groups@[0] { Some(s) => Some(s@), None => None::<Seq<char>> }));
        assert(g[1] == (match groups@[1] { Some(s) => Some(s@), None => None::<Seq<char>> }));
        assert(g[2] == (match groups@[2] { Some(s) => Some(s@), None => None::<Seq<char>> }));
        assert(g[3] == (match groups@[3] { Some(s) => Some(s@), None => None::<Seq<char>> }));
        assert(g[4] == (match groups@[4] { Some(s) => Some(s@), None => None::<Seq<char>> }));
        assert(g[5] == (match groups@[5] { Some(s) => Some(s@), None => None::<Seq<char>> }));
    }
    let year = match captured_decimal(&groups[0], 2147483647) {
        Some(v) => v,
        None => return None,
    };
    let month = match captured_decimal(&groups[1], 4294967295) {
        Some(v) => v,
        None => return None,
    };
    let day = match captured_decimal(&groups[2], 4294967295) {
        Some(v) => v,
        None => return None,
    };
    let hour = match captured_decimal(&groups[3], 4294967295) {
        Some(v) => v,
        None => return None,
    };
    let minute = match captured_decimal(&groups[4], 4294967295) {
        Some(v) => v,
        None => return None,
    };
    let second = match captured_decimal(&groups[5], 4294967295) {
        Some(v) => v,
        None => return None,
    };
    Some((year, month, day, hour, minute, second))
}

/// Recognises the timestamp `YYYYMMDDHHMMSS_` in the name of a recording,
/// as in `20210101083000_123456_c00d00.wav`.
pub struct FileNamePattern {
    regex: regex::Regex,
}

/// Relies on `regex::Regex::new`, which fails only on a pattern with a
/// syntax error or one whose compiled form is over the size limit; the
/// file-name pattern is neither.
#[verifier::external_body]
fn compile_regex(pattern: &str) -> (r: Option<regex::Regex>)
    requires
        pattern@ == FILE_NAME_PATTERN@,
    ensures
        r is Some,
{
    regex::Regex::new(pattern).ok()
}

/// Relies on `regex::Regex::captures` with the pattern that
/// `FileNamePattern::new` compiles: each capture group after the whole
/// match, in order, or `None` where the path does not match.
#[verifier::external_body]
fn capture_timestamp(pattern: &FileNamePattern, path: &str) -> (r: Option<Vec<Option<String>>>)
    ensures
        r matches Some(v) ==> regex_captures(FILE_NAME_PATTERN@, path@) == Some(group_views(v@)),
        r is None ==> regex_captures(FILE_NAME_PATTERN@, path@) is None,
{
    match pattern.regex.captures(path) {
        Some(c) => Some(c.iter().skip(1).map(|m| m.map(|m| m.as_str().to_string())).collect()),
        None => None,
    }
}

/// Relies on `slice::sort` on `String`s, a stable sort into ascending `Ord`
/// order, which for strings is character by character.
#[verifier::external_body]
fn sort_names(names: &mut Vec<String>)
    ensures
        name_views(final(names)@).to_multiset() == name_views(old(names)@).to_multiset(),
        sorted_names(name_views(final(names)@)),
{
    names.sort()
}

impl FileNamePattern {
    /// Compiles `FILE_NAME_PATTERN`.
    pub fn new() -> (r: Option<FileNamePattern>)
        ensures
            r is Some,
    {
        match compile_regex(FILE_NAME_PATTERN) {
            Some(regex) => Some(FileNamePattern { regex }),
            None => None,
        }
    }

    /// The start time that a recording's path names.
    pub fn base_time(&self, path: &str) -> (r: Option<LabelTime>)
        ensures
            r matches Some(t) ==> base_seconds(path@) == Some(t.spec_seconds()),
            r is None ==> base_seconds(path@) is None,
    {
        match capture_timestamp(self, path) {
            Some(groups) => match timestamp_fields(&groups) {
                Some((year, month, day, hour, minute, second)) => LabelTime::from_civil(
                    year as i32,
                    month,
                    day,
                    hour,
                    minute,
                    second,
                ),
                None => None,
            },
            None => None,
        }
    }

    /// The recordings to label, in name order, each with the start time its
    /// name holds; names without one are passed over.
    pub fn select_files(&self, names: Vec<String>) -> (r: Vec<(String, LabelTime)>)
        ensures
            exists|sorted: Seq<Seq<char>>|
                {
                    &&& #[trigger] sorted.to_multiset() == name_views(names@).to_multiset()
                    &&& sorted_names(sorted)
                    &&& r@.map_values(|p: (String, LabelTime)| (p.0@, p.1.spec_seconds()))
                        == sorted.filter_map(|n: Seq<char>| timed_path(n))
                },
    {
        let mut names = names;
        sort_names(&mut names);
        let ghost sorted = name_views(names@);
        let mut selected: Vec<(String, LabelTime)> = Vec::new();
        let mut i: usize = 0;
        while i < names.len()
            invariant
                sorted == name_views(names@),
                i <= names@.len(),
                selected@.map_values(|p: (String, LabelTime)| (p.0@, p.1.spec_seconds()))
                    == sorted.take(i as int).filter_map(|n: Seq<char>| timed_path(n)),
            decreases names@.len() - i,
        {
            let path = names[i].clone();
            assert(sorted.take(i + 1).drop_last() =~= sorted.take(i as int));
            assert(sorted.take(i + 1).last() == names@[i as int]@);
            match self.base_time(path.as_str()) {
                Some(t) => {
                    let ghost before = selected@;
                    selected.push((path, t));
                    assert(selected@.map_values(
                        |p: (String, LabelTime)| (p.0@, p.1.spec_seconds()),
                    ) =~= before.map_values(|p: (String, LabelTime)| (p.0@, p.1.spec_seconds()))
                        + seq![(names@[i as int]@, t.spec_seconds())]);
                },
                None => {},
            }
            i = i + 1;
        }
        assert(sorted.take(names@.len() as int) =~= sorted);
        selected
    }
}

/// Why a file of a batch got no labels.
#[derive(Debug, Clone, PartialEq, Eq)]
pub enum SkipReason {
    /// Its header could not be read.
    Unreadable(ReadError),
    /// Its end would lie past the largest offset a track can hold.
    OffsetOverflow,
}

/// The running offset of a batch: where the next file's labels start.
#[derive(Debug)]
pub struct AnnotationBatch {
    next_start: u64,
    add_sub_markers: bool,
    is_range: bool,
}

impl AnnotationBatch {
    pub closed spec fn spec_next_start(self) -> nat {
        self.next_start as nat
    }

    pub closed spec fn spec_add_sub_markers(self) -> bool {
        self.add_sub_markers
    }

    pub closed spec fn spec_is_range(self) -> bool {
        self.is_range
    }

    /// A batch whose first file starts at offset 0.
    pub fn new(add_sub_markers: bool, is_range: bool) -> (r: AnnotationBatch)
        ensures
            r.spec_next_start() == 0,
            r.spec_add_sub_markers() == add_sub_markers,
            r.spec_is_range() == is_range,
    {
        AnnotationBatch { next_start: 0, add_sub_markers, is_range }
    }

    /// The offset at which the next file starts.
    pub fn get_next_start(&self) -> (r: u64)
        ensures
            r == self.spec_next_start(),
    {
        self.next_start
    }

    /// The labels of the next file, whose first bytes are `header` and which
    /// starts at `file_start_date`; the batch then moves on to the file's end.
    /// A file that fails leaves the batch where it was.
    pub fn annotate(&mut self, header: &[u8], file_start_date: LabelTime) -> (r: Result<
        Vec<AnnotationLabel>,
        SkipReason,
    >)
        ensures
            final(self).spec_add_sub_markers() == old(self).spec_add_sub_markers(),
            final(self).spec_is_range() == old(self).spec_is_range(),
            match header_fault(header@) {
                Some(kind) => r == Err::<Vec<AnnotationLabel>, SkipReason>(
                    SkipReason::Unreadable(ReadError::Format(kind)),
                ) && *final(self) == *old(self),
                None => if old(self).spec_next_start() + header_whole_seconds(header@)
                    <= u64::MAX {
                    &&& r is Ok
                    &&& final(self).spec_next_start() == old(self).spec_next_start()
                        + header_whole_seconds(header@)
                    &&& r matches Ok(labels) && labels@.len() == remaining_labels(
                        initial_view(
                            header_whole_seconds(header@),
                            file_start_date.spec_seconds(),
                            old(self).spec_next_start(),
                            old(self).spec_add_sub_markers(),
                            old(self).spec_is_range(),
                        ),
                    ).len() && forall|i: int|
                        0 <= i < labels@.len() ==> #[trigger] labels@[i]@ == remaining_labels(
                            initial_view(
                                header_whole_seconds(header@),
                                file_start_date.spec_seconds(),
                                old(self).spec_next_start(),
                                old(self).spec_add_sub_markers(),
                                old(self).spec_is_range(),
                            ),
                        )[i]
                } else {
                    r == Err::<Vec<AnnotationLabel>, SkipReason>(SkipReason::OffsetOverflow)
                        && *final(self) == *old(self)
                },
            },
    {
        let meta = match crate::wave::WaveMetaReader::from_bytes(header) {
            Ok(m) => m,
            Err(e) => return Err(SkipReason::Unreadable(e)),
        };
        let duration = meta.get_whole_seconds() as u64;
        if self.next_start > u64::MAX - duration {
            return Err(SkipReason::OffsetOverflow);
        }
        let mut annotator = FileAnnotator::from_meta(
            &meta,
            file_start_date,
            self.next_start,
            self.add_sub_markers,
            self.is_range,
        );
        self.next_start = annotator.get_end_time();
        Ok(annotator.collect_labels())
    }
}

} // verus!
