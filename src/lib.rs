//! Time-aligned annotation labels for audio recordings.
//!
//! `wave` reads the playing time of a WAVE file from its header;
//! `annotation` turns it into labels of a label track; `batch` chains the
//! files of a directory into one track; `devices` holds the recording setup.
use vstd::prelude::*;

pub mod annotation;
pub mod batch;
pub mod clock;
pub mod devices;
pub mod text;
pub mod wave;

pub use annotation::{AnnotationLabel, FileAnnotator};
pub use batch::{AnnotationBatch, FileNamePattern, SkipReason};
pub use clock::LabelTime;
pub use devices::{
    is_valid_device_selection, AudioDeviceError, CardListingPattern, InsomniaProject,
    RecordingDeviceConfiguration,
};
pub use wave::{ReadError, ReadErrorKind, WaveMetaReader};

verus! {

} // verus!
