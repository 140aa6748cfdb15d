//! Data model: job options, transform actions, media metadata, results and
//! the error taxonomy.

use crate::scan::str_eq;
use vstd::prelude::*;

verus! {

/// The container a target-extension text names, when it names one
/// exactly (the engine matches the enumerated lower-case names as they
/// are).
pub open spec fn parse_extension(s: Seq<char>) -> Option<Extension> {
    if s == "mp4"@ {
        Some(Extension::Mp4)
    } else if s == "mov"@ {
        Some(Extension::Mov)
    } else if s == "webm"@ {
        Some(Extension::Webm)
    } else if s == "avi"@ {
        Some(Extension::Avi)
    } else if s == "mkv"@ {
        Some(Extension::Mkv)
    } else {
        None
    }
}

/// Target container formats the engine accepts.
#[derive(Clone, Copy, Debug, PartialEq, Eq, Structural)]
pub enum Extension {
    Mp4,
    Mov,
    Webm,
    Avi,
    Mkv,
}

impl Extension {
    /// The canonical lower-case name of the container.
    pub open spec fn spec_name(self) -> Seq<char> {
        match self {
            Extension::Mp4 => "mp4"@,
            Extension::Mov => "mov"@,
            Extension::Webm => "webm"@,
            Extension::Avi => "avi"@,
            Extension::Mkv => "mkv"@,
        }
    }

    /// Parses a target-extension text; `None` fails the validation that
    /// guards every job.
    pub fn parse(s: &str) -> (r: Option<Extension>)
        ensures
            r == parse_extension(s@),
    {
        if str_eq(s, "mp4") {
            Some(Extension::Mp4)
        } else if str_eq(s, "mov") {
            Some(Extension::Mov)
        } else if str_eq(s, "webm") {
            Some(Extension::Webm)
        } else if str_eq(s, "avi") {
            Some(Extension::Avi)
        } else if str_eq(s, "mkv") {
            Some(Extension::Mkv)
        } else {
            None
        }
    }

    pub fn name(self) -> (r: &'static str)
        ensures
            r@ == self.spec_name(),
    {
        match self {
            Extension::Mp4 => "mp4",
            Extension::Mov => "mov",
            Extension::Webm => "webm",
            Extension::Avi => "avi",
            Extension::Mkv => "mkv",
        }
    }
}

/// Every container's canonical name parses back to it, so validation
/// accepts exactly the names the engine itself writes.
pub proof fn lemma_extension_name_roundtrip(e: Extension)
    ensures
        parse_extension(e.spec_name()) == Some(e),
{
    reveal_strlit("mp4");
    reveal_strlit("mov");
    reveal_strlit("webm");
    reveal_strlit("avi");
    reveal_strlit("mkv");
    match e {
        Extension::Mp4 => {},
        Extension::Mov => {
            assert("mov"@[1] != "mp4"@[1]);
        },
        Extension::Webm => {
            assert("webm"@.len() != "mp4"@.len());
            assert("webm"@[1] != "mov"@[1]);
        },
        Extension::Avi => {
            assert("avi"@[0] != "mp4"@[0]);
            assert("avi"@[0] != "mov"@[0]);
            assert("avi"@.len() != "webm"@.len());
        },
        Extension::Mkv => {
            assert("mkv"@[1] != "mp4"@[1]);
            assert("mkv"@[1] != "mov"@[1]);
            assert("mkv"@.len() != "webm"@.len());
            assert("mkv"@[0] != "avi"@[0]);
        },
    }
}

/// Named bundles of encoder flags: `Default` trades speed for fidelity,
/// `Thunderbolt` keeps only the rate-control flag for a fast encode.
#[derive(Clone, Copy, Debug, PartialEq, Eq, Structural)]
pub enum Preset {
    Default,
    Thunderbolt,
}

/// A pixel width and height.
#[derive(Clone, Copy, Debug, PartialEq, Eq, Structural)]
pub struct Dimensions {
    pub width: u32,
    pub height: u32,
}

/// One entry of the ordered transform history.
///
/// Rotations and flips apply cumulatively in order; when several crops are
/// present only the last one takes effect. Crop coordinates are whole pixels
/// (callers round fractional rectangles before handing them in).
#[derive(Clone, Copy, Debug, PartialEq, Eq, Structural)]
pub enum TransformAction {
    Rotate { angle: i64 },
    Flip { horizontal: bool, vertical: bool },
    Crop { left: i64, top: i64, width: i64, height: i64 },
}

/// Options of one compression job.
pub struct CompressionOptions {
    /// Path of the source video.
    pub video_path: String,
    /// Requested target container name; validated against [`Extension`]
    /// before any invocation is built.
    pub extension: String,
    /// `None` behaves like [`Preset::Thunderbolt`]: only the rate-control
    /// flag is emitted.
    pub preset: Option<Preset>,
    /// Caller-supplied job identifier; a fresh one is generated when absent.
    pub video_id: Option<String>,
    /// Drop the audio track.
    pub mute: bool,
    /// Visual quality in [0, 100]; out-of-range values fall back to the
    /// default rate-control parameter.
    pub quality: u16,
    /// Optional target width and height.
    pub dimensions: Option<Dimensions>,
    /// Optional frame-rate override, passed through verbatim.
    pub fps: Option<String>,
    /// Ordered transform history; empty means no transforms.
    pub transforms: Vec<TransformAction>,
}

/// Metadata gathered from the encoder's diagnostic stream. Each field is
/// filled as soon as a line yields it; absent fields stay `None`.
#[derive(Clone, Copy, Debug, PartialEq, Eq, Structural)]
pub struct MediaInfo {
    /// Total duration in microseconds.
    pub duration_us: Option<u64>,
    /// Pixel width and height.
    pub dimensions: Option<Dimensions>,
    /// Frame rate in thousandths of a frame per second.
    pub fps_milli: Option<u64>,
}

impl MediaInfo {
    /// A probe may stop reading once every field is known.
    pub open spec fn spec_complete(self) -> bool {
        self.duration_us is Some && self.dimensions is Some && self.fps_milli is Some
    }

    pub fn empty() -> (r: MediaInfo)
        ensures
            r.duration_us is None,
            r.dimensions is None,
            r.fps_milli is None,
    {
        MediaInfo { duration_us: None, dimensions: None, fps_milli: None }
    }

    pub fn is_complete(&self) -> (r: bool)
        ensures
            r == self.spec_complete(),
    {
        self.duration_us.is_some() && self.dimensions.is_some() && self.fps_milli.is_some()
    }
}

/// Result of a finished compression job.
pub struct CompressionResult {
    pub file_name: String,
    pub file_path: String,
}

/// Result of a thumbnail extraction.
pub struct VideoThumbnail {
    pub id: String,
    pub file_name: String,
    pub file_path: String,
}

/// Result of a quality preview: an untouched short clip and a compressed one.
pub struct QualityPreviewResult {
    pub source_file_name: String,
    pub source_file_path: String,
    pub compressed_file_name: String,
    pub compressed_file_path: String,
}

/// One progress tick of a running compression job. `current_duration` is the
/// elapsed-time value exactly as the encoder printed it.
pub struct VideoCompressionProgress {
    pub video_id: String,
    pub file_name: String,
    pub current_duration: String,
}

/// Why a job failed.
#[derive(Clone, Debug)]
pub enum JobError {
    /// The requested target container is not one of the accepted set.
    InvalidExtension,
    /// The source file does not exist.
    NotFound,
    /// The encoder executable could not be launched.
    SpawnFailure(String),
    /// The encoder exited unsuccessfully.
    RuntimeFailure(String),
    /// The job was cancelled by the user; never conflated with a runtime
    /// failure.
    Cancelled,
    /// A stream could not be read or written.
    IoFailure(String),
    /// One preview sub-job failed after the other succeeded; the partial
    /// artifacts are deleted.
    PartialArtifact(String),
}

impl JobError {
    /// The user-facing reason string for this failure.
    pub open spec fn spec_message(self) -> Seq<char> {
        match self {
            JobError::InvalidExtension => "Invalid convert to extension."@,
            JobError::NotFound => "File does not exist in given path."@,
            JobError::SpawnFailure(m) => m@,
            JobError::RuntimeFailure(m) => m@,
            JobError::Cancelled => "CANCELLED"@,
            JobError::IoFailure(m) => m@,
            JobError::PartialArtifact(m) => m@,
        }
    }

    pub fn message(&self) -> (r: String)
        ensures
            r@ == self.spec_message(),
    {
        match self {
            JobError::InvalidExtension => String::from_str("Invalid convert to extension."),
            JobError::NotFound => String::from_str("File does not exist in given path."),
            JobError::SpawnFailure(m) => m.clone(),
            JobError::RuntimeFailure(m) => m.clone(),
            JobError::Cancelled => String::from_str("CANCELLED"),
            JobError::IoFailure(m) => m.clone(),
            JobError::PartialArtifact(m) => m.clone(),
        }
    }
}

} // verus!
