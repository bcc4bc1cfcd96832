//! One video job: the immutable configuration computed at job start, the
//! planned segment list, and the assembly of a resumed run.

use vstd::prelude::*;

use crate::coordinator::{indexes_ascending, Coordinator};
use crate::errors::JobError;
use crate::media::FrameRate;
use crate::planner::{plan_segments, spec_plan, spec_segment_count, Segment};
use crate::probe::{basename, spec_is_basename};
use crate::progress::{contains_marker, spec_contains};
use crate::resume::{
    lemma_unprocessed_ascending, spec_invalid, spec_unprocessed, validate_segments, ArtifactStatus,
};
use crate::workqueue::str_equal;

verus! {

/// A video job: probed input facts, user configuration, and the segment
/// work list, which shrinks as segments complete.
pub struct Video {
    pub path: String,
    pub output_path: String,
    pub segments: Vec<Segment>,
    pub frame_rate: FrameRate,
    pub frame_count: u32,
    pub segment_size: u32,
    pub segment_count: u32,
    pub upscale_ratio: u8,
}

impl Video {
    /// Set up a job from the probed frame count and rate and the user's
    /// configuration.  A frame count of zero means no probing strategy
    /// worked, which is a probe failure, never a zero-segment plan.
    pub fn new(
        path: &str,
        output_path: &str,
        frame_count: u32,
        frame_rate: FrameRate,
        segment_size: u32,
        upscale_ratio: u8,
    ) -> (r: Result<Video, JobError>)
        requires
            1 <= segment_size,
        ensures
            frame_count == 0 <==> r is Err,
            r is Err ==> r == Result::<Video, JobError>::Err(JobError::Probe),
            r matches Ok(v) ==> {
                &&& v.path@ == path@
                &&& v.output_path@ == output_path@
                &&& v.segments@ == spec_plan(frame_count, segment_size)
                &&& v.frame_rate == frame_rate
                &&& v.frame_count == frame_count
                &&& v.segment_size == segment_size
                &&& v.segment_count == spec_segment_count(frame_count, segment_size)
                &&& v.upscale_ratio == upscale_ratio
            },
    {
        let segments = match plan_segments(frame_count, segment_size) {
            Ok(s) => s,
            Err(e) => { return Err(e) },
        };
        proof {
            crate::planner::lemma_segment_count_le(frame_count, segment_size);
            assert(spec_plan(frame_count, segment_size).len() == spec_segment_count(
                frame_count,
                segment_size,
            ));
        }
        let segment_count = segments.len() as u32;
        Ok(
            Video {
                path: path.to_owned(),
                output_path: output_path.to_owned(),
                segments,
                frame_rate,
                frame_count,
                segment_size,
                segment_count,
                upscale_ratio,
            },
        )
    }
}

/// Whether a resume attempt is looking at the same input the persisted
/// snapshot was written for: the requested path mentions the snapshot
/// input's filename, or the two paths are identical.  A mismatch means
/// the temp state belongs to another input and must be discarded, never
/// mixed in.
pub fn is_same_input(snapshot_input: &str, requested_input: &str) -> (r: bool)
    ensures
        exists|b: Seq<char>|
            spec_is_basename(snapshot_input@, b) && r == (spec_contains(requested_input@, b)
                || requested_input@ == snapshot_input@),
{
    let name = basename(snapshot_input);
    let by_name = contains_marker(requested_input, name);
    let by_path = str_equal(requested_input, snapshot_input);
    proof {
        let b = name@;
        assert(spec_is_basename(snapshot_input@, b) && (by_name || by_path) == (spec_contains(
            requested_input@,
            b,
        ) || requested_input@ == snapshot_input@));
    }
    by_name || by_path
}

/// Decide a resume attempt: the persisted snapshot must refer to the
/// requested input, else the temp state belongs to another video — a
/// configuration mismatch, resolved by discarding all temp state and
/// starting fresh, never by mixing state from two inputs.
pub fn resume_decision(snapshot_input: &str, requested_input: &str) -> (r: Result<(), JobError>)
    ensures
        exists|b: Seq<char>|
            spec_is_basename(snapshot_input@, b) && ((r is Ok) == (spec_contains(
                requested_input@,
                b,
            ) || requested_input@ == snapshot_input@)),
        r is Err ==> r == Result::<(), JobError>::Err(JobError::ConfigMismatch),
{
    let same = is_same_input(snapshot_input, requested_input);
    proof {
        let b = choose|b: Seq<char>|
            spec_is_basename(snapshot_input@, b) && same == (spec_contains(requested_input@, b)
                || requested_input@ == snapshot_input@);
        assert(spec_is_basename(snapshot_input@, b));
    }
    if same {
        Ok(())
    } else {
        Err(JobError::ConfigMismatch)
    }
}

/// Plan a job and reconcile it with the artifacts a prior run left:
/// the full plan, the artifacts to delete, and a coordinator over
/// exactly the segments still needing work.  The artifact probes must
/// answer the plan one to one; any other count means the probing walk
/// itself went wrong.
pub fn start_job(frame_count: u32, segment_size: u32, artifacts: &Vec<ArtifactStatus>) -> (r:
    Result<(Vec<Segment>, Vec<u32>, Coordinator), JobError>)
    requires
        1 <= segment_size,
    ensures
        frame_count == 0 ==> r == Result::<(Vec<Segment>, Vec<u32>, Coordinator), JobError>::Err(
            JobError::Probe,
        ),
        frame_count != 0 && artifacts@.len() != spec_segment_count(frame_count, segment_size)
            ==> r == Result::<(Vec<Segment>, Vec<u32>, Coordinator), JobError>::Err(
            JobError::Validation,
        ),
        frame_count != 0 && artifacts@.len() == spec_segment_count(frame_count, segment_size)
            ==> r is Ok,
        r matches Ok(setup) ==> {
            &&& setup.0@ == spec_plan(frame_count, segment_size)
            &&& setup.1@ == spec_invalid(setup.0@, artifacts@)
            &&& setup.2.wf()
            &&& setup.2.pending@ == spec_unprocessed(setup.0@, artifacts@)
            &&& setup.2.committed@ == Seq::<u32>::empty()
            &&& setup.2.export_task is None
            &&& setup.2.export_ready is None
            &&& setup.2.upscaled is None
            &&& setup.2.encode_task is None
        },
{
    let plan = match plan_segments(frame_count, segment_size) {
        Ok(s) => s,
        Err(e) => { return Err(e) },
    };
    if artifacts.len() != plan.len() {
        return Err(JobError::Validation);
    }
    let outcome = validate_segments(&plan, artifacts);
    proof {
        crate::planner::lemma_plan_ascending(frame_count, segment_size);
        lemma_unprocessed_ascending(plan@, artifacts@);
    }
    let coordinator = Coordinator::new(outcome.unprocessed);
    Ok((plan, outcome.invalid, coordinator))
}

} // verus!
