//! The pipeline coordinator: a state machine scheduling export, upscale and
//! encode for the unprocessed segments with bounded overlap.
//!
//! The shell owns the processes and threads; this machine owns the decisions.
//! Its transitions enforce the three scheduling guarantees:
//! a segment is upscaled only after its own export completed; a segment is
//! encoded only after its own upscale completed and the previous segment's
//! encode was joined; and at most one export, one upscale and one encode are
//! in flight at any time (each in-flight stage is a single `Option` field, so
//! two can never coexist).  Encode completions are appended to a commit log
//! whose order is exactly the later concatenation order.

use vstd::prelude::*;

use crate::planner::Segment;

verus! {

/// Strictly ascending segment indexes: processing and concatenation order.
pub open spec fn indexes_ascending(s: Seq<Segment>) -> bool {
    forall|i: int, j: int| 0 <= i < j < s.len() ==> s[i].index < s[j].index
}

/// Strictly ascending commit log.
pub open spec fn commits_ascending(s: Seq<u32>) -> bool {
    forall|i: int, j: int| 0 <= i < j < s.len() ==> s[i] < s[j]
}

/// Scheduler state for one job.  `pending` is the remaining work queue in
/// ascending index order; the head is the segment currently being carried
/// through the stages.  `committed` records every segment whose encoded
/// artifact was observed complete, in commit order.
pub struct Coordinator {
    pub pending: Vec<Segment>,
    pub export_task: Option<u32>,
    pub export_ready: Option<u32>,
    pub upscaled: Option<u32>,
    pub encode_task: Option<u32>,
    pub committed: Vec<u32>,
}

impl Coordinator {
    /// The scheduling invariant, preserved by every transition.
    pub open spec fn wf(&self) -> bool {
        &&& indexes_ascending(self.pending@)
        &&& commits_ascending(self.committed@)
        &&& forall|i: int, j: int|
            0 <= i < self.committed@.len() && 0 <= j < self.pending@.len()
                ==> self.committed@[i] < self.pending@[j].index
        &&& (self.encode_task matches Some(e) ==> {
            &&& forall|i: int| 0 <= i < self.committed@.len() ==> self.committed@[i] < e
            &&& forall|j: int| 0 <= j < self.pending@.len() ==> e < self.pending@[j].index
        })
        &&& (self.export_task matches Some(x) ==> {
            ||| (self.pending@.len() >= 1 && x == self.pending@[0].index)
            ||| (self.pending@.len() >= 2 && x == self.pending@[1].index)
        })
        &&& (self.export_ready matches Some(x)
            ==> self.pending@.len() >= 1 && x == self.pending@[0].index)
        &&& (self.upscaled matches Some(x)
            ==> self.pending@.len() >= 1 && x == self.pending@[0].index)
    }

    /// Start a job over the segments a resume scan left unprocessed.
    pub fn new(unprocessed: Vec<Segment>) -> (r: Coordinator)
        requires
            indexes_ascending(unprocessed@),
        ensures
            r.wf(),
            r.pending@ == unprocessed@,
            r.committed@ == Seq::<u32>::empty(),
            r.export_task is None,
            r.export_ready is None,
            r.upscaled is None,
            r.encode_task is None,
    {
        let r = Coordinator {
            pending: unprocessed,
            export_task: None,
            export_ready: None,
            upscaled: None,
            encode_task: None,
            committed: Vec::new(),
        };
        assert(r.committed@ =~= Seq::<u32>::empty());
        r
    }

    /// Start a job from a deserialized snapshot queue, which nothing
    /// guarantees to be ordered: the order is checked here, and a queue
    /// that is not ascending is rejected as a corrupt snapshot.
    pub fn try_new(unprocessed: Vec<Segment>) -> (r: Option<Coordinator>)
        ensures
            r matches Some(c) ==> {
                &&& c.wf()
                &&& c.pending@ == unprocessed@
                &&& c.committed@ == Seq::<u32>::empty()
                &&& c.export_task is None
                &&& c.encode_task is None
            },
            r is None ==> !indexes_ascending(unprocessed@),
    {
        let n = unprocessed.len();
        let mut i: usize = 1;
        while i < n
            invariant
                1 <= i,
                i <= n || n == 0,
                n == unprocessed@.len(),
                forall|a: int, b: int|
                    0 <= a < b < i as int ==> unprocessed@[a].index < unprocessed@[b].index,
            decreases n - i,
        {
            if unprocessed[i - 1].index >= unprocessed[i].index {
                return None;
            }
            proof {
                assert forall|a: int, b: int|
                    0 <= a < b < i as int + 1 implies unprocessed@[a].index
                    < unprocessed@[b].index by {
                    if b == i as int {
                        if a < i - 1 {
                            assert(unprocessed@[a].index < unprocessed@[i - 1].index);
                        }
                    }
                }
            }
            i = i + 1;
        }
        Some(Self::new(unprocessed))
    }

    /// Whether the job is finished: nothing pending and no encode in flight.
    pub fn is_done(&self) -> (r: bool)
        ensures
            r == (self.pending@.len() == 0 && self.encode_task is None),
    {
        self.pending.len() == 0 && self.encode_task.is_none()
    }

    /// Whether an encode is in flight and must be joined before the next
    /// one may start.
    pub fn encode_inflight(&self) -> (r: bool)
        ensures
            r == (self.encode_task is Some),
    {
        self.encode_task.is_some()
    }

    /// Prime the pipeline: run the first segment's export synchronously,
    /// there being nothing yet to overlap it with.  Returns the segment the
    /// shell must export before the steady-state loop starts.
    pub fn prime_export(&mut self) -> (r: Option<Segment>)
        requires
            old(self).wf(),
            old(self).export_task is None,
            old(self).export_ready is None,
            old(self).upscaled is None,
        ensures
            final(self).wf(),
            old(self).pending@.len() == 0 ==> r is None && *final(self) == *old(self),
            old(self).pending@.len() > 0 ==> {
                &&& r == Some(old(self).pending@[0])
                &&& final(self).export_ready == Some(old(self).pending@[0].index)
                &&& final(self).pending@ == old(self).pending@
                &&& final(self).committed@ == old(self).committed@
                &&& final(self).encode_task == old(self).encode_task
                &&& final(self).export_task is None
                &&& final(self).upscaled is None
            },
    {
        if self.pending.len() == 0 {
            return None;
        }
        let head = self.pending[0];
        self.export_ready = Some(head.index);
        Some(head)
    }

    /// Join the in-flight export, which the invariant pins to the head
    /// segment: its frames are now on disk and its upscale may start.
    pub fn export_done(&mut self)
        requires
            old(self).wf(),
            old(self).pending@.len() > 0,
            old(self).export_task == Some(old(self).pending@[0].index),
            old(self).export_ready is None,
        ensures
            final(self).wf(),
            final(self).export_ready == Some(old(self).pending@[0].index),
            final(self).export_task is None,
            final(self).pending@ == old(self).pending@,
            final(self).committed@ == old(self).committed@,
            final(self).encode_task == old(self).encode_task,
            final(self).upscaled == old(self).upscaled,
    {
        self.export_ready = self.export_task;
        self.export_task = None;
    }

    /// If a next segment exists, hand it out for an asynchronous export,
    /// which will run while the head segment is upscaled and encoded.
    pub fn start_next_export(&mut self) -> (r: Option<Segment>)
        requires
            old(self).wf(),
            old(self).export_task is None,
            old(self).pending@.len() > 0,
            old(self).export_ready == Some(old(self).pending@[0].index),
        ensures
            final(self).wf(),
            old(self).pending@.len() >= 2 ==> {
                &&& r == Some(old(self).pending@[1])
                &&& final(self).export_task == Some(old(self).pending@[1].index)
            },
            old(self).pending@.len() == 1 ==> r is None && final(self).export_task is None,
            final(self).pending@ == old(self).pending@,
            final(self).committed@ == old(self).committed@,
            final(self).encode_task == old(self).encode_task,
            final(self).export_ready == old(self).export_ready,
            final(self).upscaled == old(self).upscaled,
    {
        if self.pending.len() >= 2 {
            let next = self.pending[1];
            self.export_task = Some(next.index);
            Some(next)
        } else {
            None
        }
    }

    /// The synchronous upscale of the head segment finished.  It may only
    /// have run on a segment whose own export completed first.
    pub fn upscale_done(&mut self)
        requires
            old(self).wf(),
            old(self).pending@.len() > 0,
            old(self).export_ready == Some(old(self).pending@[0].index),
            old(self).upscaled is None,
        ensures
            final(self).wf(),
            final(self).upscaled == Some(old(self).pending@[0].index),
            final(self).export_ready is None,
            final(self).pending@ == old(self).pending@,
            final(self).committed@ == old(self).committed@,
            final(self).encode_task == old(self).encode_task,
            final(self).export_task == old(self).export_task,
    {
        self.upscaled = self.export_ready;
        self.export_ready = None;
    }

    /// Join the in-flight encode whose artifact the shell has observed
    /// complete and nonzero: the commit point.  The committed index is
    /// larger than every earlier commit, so the commit log — the later
    /// concatenation order — grows strictly by segment index.
    pub fn commit_encode(&mut self) -> (r: u32)
        requires
            old(self).wf(),
            old(self).encode_task is Some,
        ensures
            final(self).wf(),
            final(self).committed@ == old(self).committed@.push(r),
            old(self).encode_task == Some(r),
            final(self).encode_task is None,
            final(self).pending@ == old(self).pending@,
            final(self).export_task == old(self).export_task,
            final(self).export_ready == old(self).export_ready,
            final(self).upscaled == old(self).upscaled,
            commits_ascending(final(self).committed@),
    {
        let e = self.encode_task.unwrap();
        self.encode_task = None;
        self.committed.push(e);
        e
    }

    /// Start the asynchronous encode of the head segment and pop it from
    /// the queue; the shell persists the returned remaining queue so an
    /// interruption resumes after this segment, not inside it.  Requires the
    /// head's upscale to be finished and the previous encode to be joined.
    pub fn start_encode(&mut self) -> (r: Segment)
        requires
            old(self).wf(),
            old(self).pending@.len() > 0,
            old(self).upscaled == Some(old(self).pending@[0].index),
            old(self).export_ready is None,
            old(self).encode_task is None,
        ensures
            final(self).wf(),
            r == old(self).pending@[0],
            final(self).encode_task == Some(r.index),
            final(self).upscaled is None,
            final(self).pending@ == old(self).pending@.subrange(
                1,
                old(self).pending@.len() as int,
            ),
            final(self).committed@ == old(self).committed@,
            final(self).export_ready is None,
            old(self).export_task == Some(r.index) ==> final(self).export_task is None,
            old(self).export_task != Some(r.index) ==> final(self).export_task == old(
                self,
            ).export_task,
    {
        let head = self.pending.remove(0);
        self.upscaled = None;
        self.encode_task = Some(head.index);
        // A stale export handle for the segment now being encoded cannot
        // remain: the only export task the invariant allows besides the new
        // head's is the old head's own, already consumed by its upscale.
        match self.export_task {
            Some(x) => {
                if x == head.index {
                    self.export_task = None;
                }
            },
            None => {},
        }
        proof {
            let oldp = old(self).pending@;
            assert(self.pending@ =~= oldp.subrange(1, oldp.len() as int));
            assert forall|j: int| 0 <= j < self.pending@.len() implies head.index
                < self.pending@[j].index by {
                assert(self.pending@[j] == oldp[j + 1]);
                assert(oldp[0].index < oldp[j + 1].index);
            }
            assert forall|i: int, j: int|
                0 <= i < self.committed@.len() && 0 <= j
                    < self.pending@.len() implies self.committed@[i] < self.pending@[j].index by {
                assert(self.pending@[j] == oldp[j + 1]);
            }
            assert forall|a: int, b: int|
                0 <= a < b < self.pending@.len() implies self.pending@[a].index
                < self.pending@[b].index by {
                assert(self.pending@[a] == oldp[a + 1]);
                assert(self.pending@[b] == oldp[b + 1]);
            }
        }
        head
    }

    /// The remaining queue, for the persisted job snapshot.
    pub fn remaining(&self) -> (r: Vec<Segment>)
        ensures
            r@ == self.pending@,
    {
        let mut out: Vec<Segment> = Vec::new();
        let mut i: usize = 0;
        while i < self.pending.len()
            invariant
                0 <= i <= self.pending@.len(),
                out@ == self.pending@.take(i as int),
            decreases self.pending@.len() - i,
        {
            out.push(self.pending[i]);
            proof {
                assert(out@ =~= self.pending@.take(i as int + 1));
            }
            i = i + 1;
        }
        proof {
            assert(self.pending@.take(self.pending@.len() as int) =~= self.pending@);
        }
        out
    }
}

/// The commit point's gate: an encode may be committed only once its
/// artifact is observed on disk with content; anything else is an encode
/// stage failure, and the segment is redone whole on the next run.
pub fn encode_commit_check(artifact_exists: bool, artifact_len: u64) -> (r: Result<
    (),
    crate::errors::JobError,
>)
    ensures
        r is Ok <==> artifact_exists && artifact_len != 0,
        r is Err ==> r == Result::<(), crate::errors::JobError>::Err(
            crate::errors::JobError::Stage(crate::errors::StageKind::Encode),
        ),
{
    if artifact_exists && artifact_len != 0 {
        Ok(())
    } else {
        Err(crate::errors::JobError::Stage(crate::errors::StageKind::Encode))
    }
}

/// Ordering invariant: in every reachable scheduler state the commit log —
/// the sequence of encode completions the finalizer's playlist will see —
/// is strictly increasing by segment index, whatever the interleaving of
/// the asynchronous export and encode tasks was.
pub proof fn lemma_commit_order(c: Coordinator)
    requires
        c.wf(),
    ensures
        forall|i: int, j: int| 0 <= i < j < c.committed@.len() ==> c.committed@[i] < c.committed@[j],
{
}

} // verus!
