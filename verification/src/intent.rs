use vstd::prelude::*;
use crate::selector::ResolutionTarget;
use crate::transcode::TranscodePreset;

verus! {

/// The immutable per-run configuration, created once from user input and
/// read-only thereafter.
pub struct DownloadIntent {
    /// The requested audio locale.
    pub audio: String,
    /// The requested subtitle locale, if any.
    pub subtitle: Option<String>,
    /// The requested rendition quality.
    pub resolution: ResolutionTarget,
    /// The output path template; `-` stands for standard output.
    pub output: String,
    /// The transcoder quality preset, if any; without one, streams are copied
    /// directly into the target container.
    pub preset: Option<TranscodePreset>,
    /// Whether files that already exist are skipped.
    pub skip_existing: bool,
    /// Whether interactive input is suppressed; with this set, duplicate
    /// seasons are not collapsed.
    pub yes: bool,
}

} // verus!
