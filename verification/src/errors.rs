//! Error taxonomy of the pipeline core.

use vstd::prelude::*;

verus! {

/// The pipeline stage whose external process failed.
#[derive(Clone, Copy, PartialEq, Eq, Structural, Debug)]
pub enum StageKind {
    Export,
    Upscale,
    Encode,
}

/// A fatal condition of a job or of one file of a batch.
///
/// `Probe`: a collaborator could not determine required metadata.
/// `Validation`: an on-disk artifact disagrees with its planned segment size
/// (self-healed by deletion and requeueing, never surfaced).
/// `Stage`: an export, upscale or encode process failed; fatal to the job.
/// `Finalize`: concatenation kept failing, or the final output is missing or
/// empty.
/// `ConfigMismatch`: a persisted snapshot refers to a different input than the
/// one requested.
#[derive(Clone, Copy, PartialEq, Eq, Structural, Debug)]
pub enum JobError {
    Probe,
    Validation,
    Stage(StageKind),
    Finalize,
    ConfigMismatch,
}

} // verus!
