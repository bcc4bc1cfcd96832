//! Crash-recovery validation: reconcile on-disk segment artifacts with the
//! plan after an interrupted run.
//!
//! The shell probes each planned segment's artifact (named by index) for its
//! frame count and hands the outcomes in; this module decides which segments
//! still need work and which artifacts must be deleted as inconsistent.

use vstd::prelude::*;

use crate::coordinator::indexes_ascending;
use crate::planner::{seg_sizes_sum, Segment};

verus! {

/// What a probe of one planned segment's on-disk artifact found:
/// no artifact at all, or an artifact with the given frame count.
#[derive(Clone, Copy, PartialEq, Eq, Structural, Debug)]
pub enum ArtifactStatus {
    Missing,
    Present(u32),
}

/// A segment must be (re)processed when its artifact is missing or its
/// probed frame count differs from the planned size.
pub open spec fn spec_needs_work(seg: Segment, art: ArtifactStatus) -> bool {
    match art {
        ArtifactStatus::Missing => true,
        ArtifactStatus::Present(frames) => frames != seg.size,
    }
}

/// An artifact is invalid — present but inconsistent with the plan — and
/// must be deleted before the segment is requeued.
pub open spec fn spec_is_invalid(seg: Segment, art: ArtifactStatus) -> bool {
    match art {
        ArtifactStatus::Missing => false,
        ArtifactStatus::Present(frames) => frames != seg.size,
    }
}

/// The segments still needing work, in plan order.
pub open spec fn spec_unprocessed(plan: Seq<Segment>, arts: Seq<ArtifactStatus>) -> Seq<Segment>
    decreases plan.len(),
{
    if plan.len() == 0 {
        Seq::empty()
    } else {
        let prefix = spec_unprocessed(plan.drop_last(), arts.take(plan.len() - 1));
        if spec_needs_work(plan.last(), arts[plan.len() - 1]) {
            prefix.push(plan.last())
        } else {
            prefix
        }
    }
}

/// The indexes whose artifacts must be deleted, in plan order.
pub open spec fn spec_invalid(plan: Seq<Segment>, arts: Seq<ArtifactStatus>) -> Seq<u32>
    decreases plan.len(),
{
    if plan.len() == 0 {
        Seq::empty()
    } else {
        let prefix = spec_invalid(plan.drop_last(), arts.take(plan.len() - 1));
        if spec_is_invalid(plan.last(), arts[plan.len() - 1]) {
            prefix.push(plan.last().index)
        } else {
            prefix
        }
    }
}

/// Result of a resume scan: the work queue for the pipeline, and the
/// artifacts the shell must remove.
pub struct ResumeOutcome {
    pub unprocessed: Vec<Segment>,
    pub invalid: Vec<u32>,
}

/// Walk the plan in index order and classify every segment: missing
/// artifact or mismatched frame count means the segment is requeued, and a
/// mismatched artifact is additionally marked for deletion.  An empty
/// `unprocessed` list means the job skips straight to finalization.
pub fn validate_segments(plan: &Vec<Segment>, artifacts: &Vec<ArtifactStatus>) -> (r:
    ResumeOutcome)
    requires
        artifacts@.len() == plan@.len(),
    ensures
        r.unprocessed@ == spec_unprocessed(plan@, artifacts@),
        r.invalid@ == spec_invalid(plan@, artifacts@),
{
    let mut unprocessed: Vec<Segment> = Vec::new();
    let mut invalid: Vec<u32> = Vec::new();
    let n = plan.len();
    let mut i: usize = 0;
    while i < n
        invariant
            0 <= i <= n,
            n == plan@.len(),
            artifacts@.len() == plan@.len(),
            unprocessed@ == spec_unprocessed(plan@.take(i as int), artifacts@.take(i as int)),
            invalid@ == spec_invalid(plan@.take(i as int), artifacts@.take(i as int)),
        decreases n - i,
    {
        let seg = plan[i];
        let needs = match artifacts[i] {
            ArtifactStatus::Missing => true,
            ArtifactStatus::Present(frames) => frames != seg.size,
        };
        let bad = match artifacts[i] {
            ArtifactStatus::Missing => false,
            ArtifactStatus::Present(frames) => frames != seg.size,
        };
        if needs {
            unprocessed.push(seg);
        }
        if bad {
            invalid.push(seg.index);
        }
        proof {
            let k = i as int + 1;
            assert(plan@.take(k).drop_last() =~= plan@.take(i as int));
            assert(artifacts@.take(k).take(k - 1) =~= artifacts@.take(i as int));
            assert(plan@.take(k).last() == plan@[i as int]);
            assert(artifacts@.take(k)[k - 1] == artifacts@[i as int]);
        }
        i = i + 1;
    }
    proof {
        assert(plan@.take(n as int) =~= plan@);
        assert(artifacts@.take(n as int) =~= artifacts@);
    }
    ResumeOutcome { unprocessed, invalid }
}

/// Resume idempotence: after a completed run, every artifact is present
/// with exactly its planned size, and a further resume scan finds nothing
/// left to do.
pub proof fn lemma_resume_idempotent(plan: Seq<Segment>, arts: Seq<ArtifactStatus>)
    requires
        arts.len() == plan.len(),
        forall|i: int| 0 <= i < plan.len() ==> arts[i] == ArtifactStatus::Present(plan[i].size),
    ensures
        spec_unprocessed(plan, arts) =~= Seq::<Segment>::empty(),
    decreases plan.len(),
{
    if plan.len() > 0 {
        lemma_resume_idempotent(plan.drop_last(), arts.take(plan.len() - 1));
    }
}

/// Corruption detection: a present artifact whose probed frame count
/// differs from the planned size is deleted and its segment requeued.
pub proof fn lemma_corruption_detected(plan: Seq<Segment>, arts: Seq<ArtifactStatus>, i: int)
    requires
        arts.len() == plan.len(),
        0 <= i < plan.len(),
        spec_is_invalid(plan[i], arts[i]),
    ensures
        spec_unprocessed(plan, arts).contains(plan[i]),
        spec_invalid(plan, arts).contains(plan[i].index),
    decreases plan.len(),
{
    if i == plan.len() - 1 {
        assert(spec_unprocessed(plan, arts).last() == plan[i]);
        assert(spec_invalid(plan, arts).last() == plan[i].index);
    } else {
        lemma_corruption_detected(plan.drop_last(), arts.take(plan.len() - 1), i);
        let sub = spec_unprocessed(plan.drop_last(), arts.take(plan.len() - 1));
        let subi = spec_invalid(plan.drop_last(), arts.take(plan.len() - 1));
        let j = choose|j: int| 0 <= j < sub.len() && sub[j] == plan.drop_last()[i];
        let ji = choose|j: int| 0 <= j < subi.len() && subi[j] == plan.drop_last()[i].index;
        assert(spec_unprocessed(plan, arts)[j] == plan[i]);
        assert(spec_invalid(plan, arts)[ji] == plan[i].index);
    }
}

/// A resume scan keeps the plan's order: the requeued segments are a
/// subsequence of the plan, so their indexes are still strictly
/// ascending, as the coordinator requires.
pub proof fn lemma_unprocessed_ascending(plan: Seq<Segment>, arts: Seq<ArtifactStatus>)
    requires
        arts.len() == plan.len(),
        indexes_ascending(plan),
    ensures
        indexes_ascending(spec_unprocessed(plan, arts)),
        forall|j: int|
            0 <= j < spec_unprocessed(plan, arts).len() ==> exists|i: int|
                0 <= i < plan.len() && plan[i] == #[trigger] spec_unprocessed(plan, arts)[j],
    decreases plan.len(),
{
    if plan.len() > 0 {
        let sub_plan = plan.drop_last();
        let sub_arts = arts.take(plan.len() - 1);
        lemma_unprocessed_ascending(sub_plan, sub_arts);
        let prefix = spec_unprocessed(sub_plan, sub_arts);
        let whole = spec_unprocessed(plan, arts);
        if spec_needs_work(plan.last(), arts[plan.len() - 1]) {
            assert forall|a: int, b: int|
                0 <= a < b < whole.len() implies whole[a].index < whole[b].index by {
                if b == whole.len() - 1 {
                    let i = choose|i: int| 0 <= i < sub_plan.len() && sub_plan[i] == prefix[a];
                    assert(plan[i].index < plan.last().index);
                }
            }
            assert forall|j: int| 0 <= j < whole.len() implies exists|i: int|
                0 <= i < plan.len() && plan[i] == #[trigger] whole[j] by {
                if j == whole.len() - 1 {
                    assert(plan[plan.len() - 1] == whole[j]);
                } else {
                    let i = choose|i: int| 0 <= i < sub_plan.len() && sub_plan[i] == prefix[j];
                    assert(plan[i] == whole[j]);
                }
            }
        } else {
            assert forall|j: int| 0 <= j < whole.len() implies exists|i: int|
                0 <= i < plan.len() && plan[i] == #[trigger] whole[j] by {
                let i = choose|i: int| 0 <= i < sub_plan.len() && sub_plan[i] == prefix[j];
                assert(plan[i] == whole[j]);
            }
        }
    }
}

/// Every segment a resume scan requeues comes from the plan, so the frames
/// still to process never exceed the frames planned.
pub proof fn lemma_unprocessed_sum_le(plan: Seq<Segment>, arts: Seq<ArtifactStatus>)
    requires
        arts.len() == plan.len(),
    ensures
        0 <= seg_sizes_sum(spec_unprocessed(plan, arts)),
        seg_sizes_sum(spec_unprocessed(plan, arts)) <= seg_sizes_sum(plan),
    decreases plan.len(),
{
    if plan.len() == 0 {
    } else {
        lemma_unprocessed_sum_le(plan.drop_last(), arts.take(plan.len() - 1));
        let prefix = spec_unprocessed(plan.drop_last(), arts.take(plan.len() - 1));
        if spec_needs_work(plan.last(), arts[plan.len() - 1]) {
            assert(prefix.push(plan.last()).drop_last() =~= prefix);
        }
    }
}

} // verus!
