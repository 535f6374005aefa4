//! Annotation labels for one WAVE file: one label spanning the file, or six
//! sub-markers that divide it into equal whole-second slices.
use vstd::prelude::*;
use vstd::arithmetic::div_mod::{lemma_fundamental_div_mod, lemma_mod_pos_bound};
use vstd::arithmetic::mul::lemma_mul_inequality;

use crate::clock::{
    calendar_text, calendar_text_of, clock_text, push_clock_text, LabelTime, EARLIEST_SECONDS,
    LATEST_BASE_SECONDS,
};
use crate::text::{decimal, push_decimal};
use crate::wave::{header_fault, header_whole_seconds, ReadError, WaveMetaReader};

verus! {

/// Sub-markers a file is divided into when they are asked for.
pub const SUB_MARKER_COUNT: usize = 6;

/// What a label holds: its start and end offsets in seconds, and its text.
pub struct LabelView {
    pub start: nat,
    pub end: nat,
    pub text: Seq<char>,
}

/// One label of an annotation track.
#[derive(Debug, Clone)]
pub struct AnnotationLabel {
    start_marker: u64,
    end_marker: u64,
    used_label: String,
}

impl View for AnnotationLabel {
    type V = LabelView;

    closed spec fn view(&self) -> LabelView {
        LabelView {
            start: self.start_marker as nat,
            end: self.end_marker as nat,
            text: self.used_label@,
        }
    }
}

/// The line of a label in a label track:
/// `<start>.00<TAB><end>.00<TAB><text><LF>`.
pub open spec fn label_line(l: LabelView) -> Seq<char> {
    decimal(l.start) + seq!['.', '0', '0', '\t'] + decimal(l.end) + seq!['.', '0', '0', '\t']
        + l.text + seq!['\n']
}

impl AnnotationLabel {
    pub fn get_start_marker(&self) -> (r: u64)
        ensures
            r == self@.start,
    {
        self.start_marker
    }

    pub fn get_end_marker(&self) -> (r: u64)
        ensures
            r == self@.end,
    {
        self.end_marker
    }

    pub fn get_text(&self) -> (r: &str)
        ensures
            r@ == self@.text,
    {
        self.used_label.as_str()
    }

    /// The label as a line of a label track, offsets with two decimals.
    pub fn get_label_line(&self) -> (r: String)
        ensures
            r@ == label_line(self@),
    {
        let mut line = String::new();
        push_decimal(&mut line, self.start_marker);
        line.append(".00\t");
        push_decimal(&mut line, self.end_marker);
        line.append(".00\t");
        line.append(self.used_label.as_str());
        line.append("\n");
        proof {
            reveal_strlit(".00\t");
            reveal_strlit("\n");
            assert(line@ =~= label_line(self@));
        }
        line
    }
}

/// The state of a `FileAnnotator`.
pub struct AnnotatorView {
    /// Playing time of the file in whole seconds.
    pub duration: nat,
    /// Length of one slice in whole seconds.
    pub slice: nat,
    /// Offset of the file's start within the whole track.
    pub start: nat,
    /// Calendar time of the file's start, in seconds since 1970-01-01.
    pub base: int,
    /// Labels the file gets: 1, or 6 with sub-markers.
    pub max_labels: nat,
    /// Labels handed out so far.
    pub next: nat,
    /// Offset at which the next label starts.
    pub clock: nat,
    /// Labels carry a range of clock times rather than one calendar time.
    pub range: bool,
}

/// A fresh annotator for a file of `duration` whole seconds.
pub open spec fn initial_view(
    duration: nat,
    base: int,
    start: nat,
    add_sub_markers: bool,
    range: bool,
) -> AnnotatorView {
    let max_labels: nat = if add_sub_markers {
        6
    } else {
        1
    };
    AnnotatorView {
        duration,
        slice: duration / max_labels,
        start,
        base,
        max_labels,
        next: 0,
        clock: start,
        range,
    }
}

/// Offset at which the file ends: where the next file of a batch starts.
pub open spec fn end_time(v: AnnotatorView) -> nat {
    v.start + v.duration
}

/// Calendar time at which the `k`-th label (from 1) starts.
pub open spec fn slice_start_time(v: AnnotatorView, k: nat) -> int {
    if v.max_labels > 1 {
        v.base + v.slice * (k - 1)
    } else {
        v.base
    }
}

/// Calendar time at which the `k`-th label (from 1) ends.
pub open spec fn slice_end_time(v: AnnotatorView, k: nat) -> int {
    v.base + v.slice * k
}

/// Text of the `k`-th label (from 1).
pub open spec fn label_text(v: AnnotatorView, k: nat) -> Seq<char> {
    if v.range {
        clock_text(slice_start_time(v, k)) + seq![' ', '-', ' '] + clock_text(slice_end_time(v, k))
    } else {
        calendar_text(slice_start_time(v, k))
    }
}

/// The `k`-th label (from 1): in range mode its offsets span the `k`-th
/// slice; otherwise both stay at the file's start offset.
pub open spec fn label_at(v: AnnotatorView, k: nat) -> LabelView {
    LabelView {
        start: (v.start + if v.range {
            v.slice * (k - 1)
        } else {
            0
        }) as nat,
        end: (v.start + if v.range {
            v.slice * k
        } else {
            0
        }) as nat,
        text: label_text(v, k),
    }
}

/// The state after one more label is handed out.
pub open spec fn advanced(v: AnnotatorView) -> AnnotatorView {
    AnnotatorView {
        next: v.next + 1,
        clock: if v.range {
            v.clock + v.slice
        } else {
            v.clock
        },
        ..v
    }
}

/// The labels still to come, in order.
pub open spec fn remaining_labels(v: AnnotatorView) -> Seq<LabelView> {
    Seq::new((v.max_labels - v.next) as nat, |i: int| label_at(v, (v.next + i + 1) as nat))
}

/// Without sub-markers a file gets exactly one label, with them exactly six,
/// whatever its playing time, zero included.
pub proof fn lemma_label_count(
    duration: nat,
    base: int,
    start: nat,
    add_sub_markers: bool,
    range: bool,
)
    ensures
        remaining_labels(initial_view(duration, base, start, add_sub_markers, range)).len() == if add_sub_markers {
            6nat
        } else {
            1nat
        },
{
}

/// A file annotated from the end time of the file before it starts where
/// that file ends, and ends after both playing times.
pub proof fn lemma_chained_end_times(
    first_duration: nat,
    second_duration: nat,
    start: nat,
    first_base: int,
    second_base: int,
    first_sub_markers: bool,
    second_sub_markers: bool,
    first_range: bool,
    second_range: bool,
)
    ensures
        ({
            let first = initial_view(
                first_duration,
                first_base,
                start,
                first_sub_markers,
                first_range,
            );
            let second = initial_view(
                second_duration,
                second_base,
                end_time(first),
                second_sub_markers,
                second_range,
            );
            &&& second.start == start + first_duration
            &&& end_time(second) == start + first_duration + second_duration
        }),
{
}

/// Every label lies within the file's span, from its start offset to its end
/// time; in range mode each label ends where the next one starts.
pub proof fn lemma_labels_within_file(v: AnnotatorView, k: nat)
    requires
        v.max_labels >= 1,
        v.slice == v.duration / v.max_labels,
        1 <= k <= v.max_labels,
    ensures
        v.start <= label_at(v, k).start <= label_at(v, k).end <= end_time(v),
        v.range && k < v.max_labels ==> label_at(v, k).end == label_at(v, k + 1).start,
{
    lemma_slices_fit(v.duration, v.max_labels, k);
    lemma_slices_fit(v.duration, v.max_labels, (k - 1) as nat);
    assert(v.slice * (k - 1) <= v.slice * k) by (nonlinear_arith)
        requires
            k >= 1,
    ;
}

/// Two annotators made from the same inputs hand out the same labels, texts
/// included.
pub proof fn lemma_same_inputs_same_labels(
    duration: nat,
    base: int,
    start: nat,
    add_sub_markers: bool,
    range: bool,
    a: AnnotatorView,
    b: AnnotatorView,
)
    requires
        a == initial_view(duration, base, start, add_sub_markers, range),
        b == initial_view(duration, base, start, add_sub_markers, range),
    ensures
        remaining_labels(a) == remaining_labels(b),
        forall|i: int|
            0 <= i < remaining_labels(a).len() ==> #[trigger] remaining_labels(a)[i].text
                == remaining_labels(b)[i].text,
{
}

/// Hands out the labels of one WAVE file, one at a time.
#[derive(Debug)]
pub struct FileAnnotator {
    file_duration_in_seconds: u64,
    slice_duration_in_seconds: u64,
    file_start_time_in_seconds: u64,
    file_base_seconds: i64,
    max_annotations: usize,
    next_annotation_idx: usize,
    last_start_time: u64,
    is_range: bool,
}

proof fn lemma_slices_fit(duration: nat, max_labels: nat, k: nat)
    requires
        max_labels >= 1,
        k <= max_labels,
    ensures
        (duration / max_labels) * k <= duration,
{
    lemma_fundamental_div_mod(duration as int, max_labels as int);
    lemma_mod_pos_bound(duration as int, max_labels as int);
    lemma_mul_inequality(k as int, max_labels as int, (duration / max_labels) as int);
}

impl View for FileAnnotator {
    type V = AnnotatorView;

    closed spec fn view(&self) -> AnnotatorView {
        AnnotatorView {
            duration: self.file_duration_in_seconds as nat,
            slice: self.slice_duration_in_seconds as nat,
            start: self.file_start_time_in_seconds as nat,
            base: self.file_base_seconds as int,
            max_labels: self.max_annotations as nat,
            next: self.next_annotation_idx as nat,
            clock: self.last_start_time as nat,
            range: self.is_range,
        }
    }
}

impl FileAnnotator {
    #[verifier::type_invariant]
    spec fn well_formed(self) -> bool {
        &&& self.file_duration_in_seconds <= u32::MAX
        &&& self.max_annotations == 1 || self.max_annotations == 6
        &&& self.slice_duration_in_seconds == self.file_duration_in_seconds
            / self.max_annotations as u64
        &&& self.next_annotation_idx <= self.max_annotations
        &&& self.file_start_time_in_seconds + self.file_duration_in_seconds <= u64::MAX
        &&& self.last_start_time == self.file_start_time_in_seconds + if self.is_range {
            self.slice_duration_in_seconds * self.next_annotation_idx
        } else {
            0
        }
        &&& EARLIEST_SECONDS <= self.file_base_seconds <= LATEST_BASE_SECONDS
    }

    /// An annotator for a file whose format is known.
    ///
    /// `start_time` is the file's offset within the whole track;
    /// `file_start_date` the calendar time of its first sample.
    pub fn from_meta(
        meta: &WaveMetaReader,
        file_start_date: LabelTime,
        start_time: u64,
        add_sub_markers: bool,
        is_range: bool,
    ) -> (r: FileAnnotator)
        requires
            start_time + meta.spec_whole_seconds() <= u64::MAX,
        ensures
            r@ == initial_view(
                meta.spec_whole_seconds(),
                file_start_date.spec_seconds(),
                start_time as nat,
                add_sub_markers,
                is_range,
            ),
    {
        let duration = meta.get_whole_seconds() as u64;
        let base = file_start_date.get_seconds();
        let max_annotations: usize = if add_sub_markers {
            SUB_MARKER_COUNT
        } else {
            1
        };
        FileAnnotator {
            file_duration_in_seconds: duration,
            slice_duration_in_seconds: duration / max_annotations as u64,
            file_start_time_in_seconds: start_time,
            file_base_seconds: base,
            max_annotations,
            next_annotation_idx: 0,
            last_start_time: start_time,
            is_range,
        }
    }

    /// An annotator for the file whose first bytes are `header`; fails as
    /// `WaveMetaReader::from_bytes` does.
    pub fn from(
        header: &[u8],
        file_start_date: LabelTime,
        start_time: u64,
        add_sub_markers: bool,
        is_range: bool,
    ) -> (r: Result<FileAnnotator, ReadError>)
        requires
            header_fault(header@) is None ==> start_time + header_whole_seconds(header@) <= u64::MAX,
        ensures
            match header_fault(header@) {
                Some(kind) => r == Err::<FileAnnotator, ReadError>(ReadError::Format(kind)),
                None => r matches Ok(a) && a@ == initial_view(
                    header_whole_seconds(header@),
                    file_start_date.spec_seconds(),
                    start_time as nat,
                    add_sub_markers,
                    is_range,
                ),
            },
    {
        match WaveMetaReader::from_bytes(header) {
            Ok(meta) => {
                Ok(FileAnnotator::from_meta(
                    &meta,
                    file_start_date,
                    start_time,
                    add_sub_markers,
                    is_range,
                ))
            },
            Err(e) => Err(e),
        }
    }

    /// The offset at which the file ends, which the next file of a batch
    /// starts at.
    pub fn get_end_time(&self) -> (r: u64)
        ensures
            r == end_time(self@),
    {
        proof {
            use_type_invariant(self);
        }
        self.file_start_time_in_seconds + self.file_duration_in_seconds
    }

    /// How many labels the file gets in all.
    pub fn get_max_labels(&self) -> (r: usize)
        ensures
            r == self@.max_labels,
    {
        self.max_annotations
    }

    /// The next label, or `None` once all of them were handed out.
    pub fn next(&mut self) -> (r: Option<AnnotationLabel>)
        ensures
            old(self)@.next >= old(self)@.max_labels ==> r is None && final(self)@ == old(self)@,
            old(self)@.next < old(self)@.max_labels ==> (r matches Some(l) && l@ == label_at(
                old(self)@,
                old(self)@.next + 1,
            )) && final(self)@ == advanced(old(self)@),
    {
        proof {
            use_type_invariant(&*self);
        }
        if self.next_annotation_idx >= self.max_annotations {
            return None;
        }
        let idx = self.next_annotation_idx + 1;
        let slice = self.slice_duration_in_seconds;
        proof {
            lemma_slices_fit(self.file_duration_in_seconds as nat, self.max_annotations as nat, idx as nat);
            lemma_slices_fit(
                self.file_duration_in_seconds as nat,
                self.max_annotations as nat,
                (idx - 1) as nat,
            );
        }
        assert(slice * idx == slice * (idx - 1) + slice) by (nonlinear_arith);
        let old_last_start_time = self.last_start_time;
        let new_last_start_time = if self.is_range {
            old_last_start_time + slice
        } else {
            old_last_start_time
        };
        let base = self.file_base_seconds;
        let end_time = base + (slice * idx as u64) as i64;
        let start_time = if self.max_annotations > 1 {
            base + (slice * (idx - 1) as u64) as i64
        } else {
            base
        };
        let used_label = if self.is_range {
            let mut text = String::new();
            push_clock_text(&mut text, start_time);
            text.append(" - ");
            push_clock_text(&mut text, end_time);
            proof {
                reveal_strlit(" - ");
            }
            text
        } else {
            calendar_text_of(start_time)
        };
        *self = FileAnnotator {
            next_annotation_idx: idx,
            last_start_time: new_last_start_time,
            ..*self
        };
        let label = AnnotationLabel {
            start_marker: old_last_start_time,
            end_marker: new_last_start_time,
            used_label,
        };
        assert(label@.text =~= label_at(old(self)@, old(self)@.next + 1).text);
        Some(label)
    }

    /// All labels still to come, in order; the annotator is then spent.
    pub fn collect_labels(&mut self) -> (r: Vec<AnnotationLabel>)
        ensures
            r@.len() == remaining_labels(old(self)@).len(),
            forall|i: int| 0 <= i < r@.len() ==> #[trigger] r@[i]@ == remaining_labels(old(self)@)[i],
            final(self)@ == (AnnotatorView {
                next: old(self)@.max_labels,
                clock: (old(self)@.clock + if old(self)@.range {
                    old(self)@.slice * (old(self)@.max_labels - old(self)@.next)
                } else {
                    0
                }) as nat,
                ..old(self)@
            }),
    {
        proof {
            use_type_invariant(&*self);
        }
        let mut labels: Vec<AnnotationLabel> = Vec::new();
        let ghost start = self@;
        loop
            invariant
                self@ == (AnnotatorView { next: self@.next, clock: self@.clock, ..start }),
                start.next <= self@.next <= start.max_labels,
                labels@.len() == self@.next - start.next,
                forall|i: int|
                    0 <= i < labels@.len() ==> #[trigger] labels@[i]@ == remaining_labels(start)[i],
                self@.clock == start.clock + if start.range {
                    start.slice * (self@.next - start.next)
                } else {
                    0
                },
            ensures
                self@.next == start.max_labels,
                labels@.len() == remaining_labels(start).len(),
                forall|i: int|
                    0 <= i < labels@.len() ==> #[trigger] labels@[i]@ == remaining_labels(start)[i],
            decreases start.max_labels - self@.next,
        {
            let before = Ghost(self@);
            match self.next() {
                Some(label) => {
                    proof {
                        if start.range {
                            assert(start.slice * (self@.next - start.next) == start.slice * (
                            before@.next - start.next) + start.slice) by (nonlinear_arith)
                                requires
                                    self@.next == before@.next + 1,
                            ;
                        }
                    }
                    labels.push(label);
                },
                None => {
                    break ;
                },
            }
        }
        labels
    }
}

} // verus!
