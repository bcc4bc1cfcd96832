//! The persisted work queue of directory mode: one row per discovered
//! video file, with probed metadata and a status state machine.
//!
//! The queue itself is the verified table; the shell mirrors it into its
//! store.  A row is created when a file is first discovered and probed;
//! the status is the only mutation, and a row is never deleted.  Rows are
//! keyed by filename (collisions across different full paths are a known
//! limitation of the scheme).

use vstd::prelude::*;

verus! {

/// The lifecycle of one discovered file.
#[derive(Clone, Copy, PartialEq, Eq, Structural, Debug)]
pub enum WorkStatus {
    Pending,
    Processing,
    Skipped,
    Done,
}

/// One discovered file with its probed metadata.  `duration_ms` carries
/// the probed duration in milliseconds; `resolution_limit` is the
/// configured ceiling the file's height was compared against.
pub struct WorkItem {
    pub filename: String,
    pub filepath: String,
    pub width: i64,
    pub height: i64,
    pub duration_ms: u64,
    pub pixel_format: String,
    pub display_aspect_ratio: String,
    pub sample_aspect_ratio: String,
    pub container: String,
    pub size: i64,
    pub folder_size: i64,
    pub bitrate: i64,
    pub codec: String,
    pub resolution_limit: i64,
    pub status: WorkStatus,
    pub content_hash: String,
}

/// The minimal discovery record of the store's first schema: a numbered
/// file with its dimensions.
#[derive(Debug)]
pub struct ReveFiles {
    pub id: i32,
    pub filename: String,
    pub path: String,
    pub width: i32,
    pub height: i32,
}

/// The same row with another status.
pub open spec fn spec_with_status(it: WorkItem, s: WorkStatus) -> WorkItem {
    WorkItem { status: s, ..it }
}

/// Some row already carries this filename.
pub open spec fn spec_has_filename(items: Seq<WorkItem>, name: Seq<char>) -> bool {
    exists|i: int| 0 <= i < items.len() && items[i].filename@ == name
}

/// How crash recovery treats one row: a row left in `Processing` by a
/// prior run is demoted to `Pending`, unless it is the file currently
/// being resumed.
pub open spec fn spec_recovered(it: WorkItem, current: Option<&str>) -> WorkItem {
    if it.status == WorkStatus::Processing && (match current {
        Some(c) => it.filename@ != c@,
        None => true,
    }) {
        spec_with_status(it, WorkStatus::Pending)
    } else {
        it
    }
}

/// The filepaths of the rows with a given status, in discovery order.
pub open spec fn spec_paths_with_status(items: Seq<WorkItem>, s: WorkStatus) -> Seq<Seq<char>>
    decreases items.len(),
{
    if items.len() == 0 {
        Seq::empty()
    } else {
        let prefix = spec_paths_with_status(items.drop_last(), s);
        if items.last().status == s {
            prefix.push(items.last().filepath@)
        } else {
            prefix
        }
    }
}

/// Whether two string slices hold the same characters.
pub fn str_equal(a: &str, b: &str) -> (r: bool)
    ensures
        r == (a@ == b@),
{
    let owned_a = a.to_owned();
    let owned_b = b.to_owned();
    owned_a == owned_b
}

/// The work queue: rows in discovery order, filenames unique.
pub struct WorkQueue {
    pub items: Vec<WorkItem>,
}

impl WorkQueue {
    /// Row keys are unique: no filename occurs twice.
    pub open spec fn wf(&self) -> bool {
        forall|i: int, j: int|
            0 <= i < j < self.items@.len() ==> self.items@[i].filename@ != self.items@[j].filename@
    }

    /// An empty queue.
    pub fn new() -> (r: WorkQueue)
        ensures
            r.wf(),
            r.items@ == Seq::<WorkItem>::empty(),
    {
        let r = WorkQueue { items: Vec::new() };
        proof {
            assert(r.items@ =~= Seq::<WorkItem>::empty());
        }
        r
    }

    /// Whether a row with this filename exists.
    pub fn contains_filename(&self, name: &str) -> (r: bool)
        ensures
            r == spec_has_filename(self.items@, name@),
    {
        let mut i: usize = 0;
        while i < self.items.len()
            invariant
                0 <= i <= self.items@.len(),
                forall|j: int| 0 <= j < i as int ==> self.items@[j].filename@ != name@,
            decreases self.items@.len() - i,
        {
            if str_equal(self.items[i].filename.as_str(), name) {
                return true;
            }
            i = i + 1;
        }
        false
    }

    /// Insert a newly discovered file, unless a row with its filename
    /// already exists.  The row enters as `Pending` when its height is
    /// within the configured resolution ceiling, as `Skipped` otherwise;
    /// the status the caller put in `item` is ignored.  Returns whether a
    /// row was added.
    pub fn upsert(&mut self, item: WorkItem) -> (r: bool)
        requires
            old(self).wf(),
        ensures
            final(self).wf(),
            r == !spec_has_filename(old(self).items@, item.filename@),
            !r ==> final(self).items@ == old(self).items@,
            r ==> final(self).items@ == old(self).items@.push(
                spec_with_status(
                    item,
                    if item.height <= item.resolution_limit {
                        WorkStatus::Pending
                    } else {
                        WorkStatus::Skipped
                    },
                ),
            ),
    {
        if self.contains_filename(item.filename.as_str()) {
            return false;
        }
        let mut row = item;
        row.status = if row.height <= row.resolution_limit {
            WorkStatus::Pending
        } else {
            WorkStatus::Skipped
        };
        self.items.push(row);
        proof {
            let items = self.items@;
            assert forall|i: int, j: int|
                0 <= i < j < items.len() implies items[i].filename@ != items[j].filename@ by {
                if j == items.len() - 1 {
                    assert(!spec_has_filename(old(self).items@, items[j].filename@));
                }
            }
        }
        true
    }

    /// Crash recovery before a batch run starts: every row a prior run
    /// left in `Processing` — other than the file currently being resumed,
    /// if any — is `Pending` again.  No other row changes.
    pub fn recover_stale(&mut self, current: Option<&str>)
        requires
            old(self).wf(),
        ensures
            final(self).wf(),
            final(self).items@.len() == old(self).items@.len(),
            forall|i: int|
                0 <= i < old(self).items@.len() ==> final(self).items@[i] == spec_recovered(
                    old(self).items@[i],
                    current,
                ),
    {
        let n = self.items.len();
        let mut i: usize = 0;
        while i < n
            invariant
                0 <= i <= n,
                n == self.items@.len(),
                self.items@.len() == old(self).items@.len(),
                forall|j: int|
                    0 <= j < i as int ==> self.items@[j] == spec_recovered(
                        old(self).items@[j],
                        current,
                    ),
                forall|j: int| i as int <= j < n as int ==> self.items@[j] == old(self).items@[j],
            decreases n - i,
        {
            let stale = self.items[i].status == WorkStatus::Processing && (match current {
                Some(c) => !str_equal(self.items[i].filename.as_str(), c),
                None => true,
            });
            if stale {
                self.items[i].status = WorkStatus::Pending;
            }
            i = i + 1;
        }
        proof {
            assert forall|i: int, j: int|
                0 <= i < j < self.items@.len() implies self.items@[i].filename@
                != self.items@[j].filename@ by {
                assert(self.items@[i].filename@ == old(self).items@[i].filename@);
                assert(self.items@[j].filename@ == old(self).items@[j].filename@);
            }
        }
    }

    /// Set the status of the row with this filepath, if one exists:
    /// `Processing` immediately before a file's job starts, `Done` after
    /// its finalization succeeds.  Returns whether a row matched.
    pub fn set_status(&mut self, filepath: &str, status: WorkStatus) -> (r: bool)
        requires
            old(self).wf(),
        ensures
            final(self).wf(),
            r == (exists|i: int|
                0 <= i < old(self).items@.len() && old(self).items@[i].filepath@ == filepath@),
            !r ==> final(self).items@ == old(self).items@,
            r ==> exists|i: int|
                {
                    &&& 0 <= i < old(self).items@.len()
                    &&& old(self).items@[i].filepath@ == filepath@
                    &&& (forall|j: int|
                        0 <= j < i ==> old(self).items@[j].filepath@ != filepath@)
                    &&& final(self).items@ == old(self).items@.update(
                        i,
                        spec_with_status(old(self).items@[i], status),
                    )
                },
    {
        let n = self.items.len();
        let mut i: usize = 0;
        while i < n
            invariant
                0 <= i <= n,
                n == self.items@.len(),
                old(self).wf(),
                self.items@ == old(self).items@,
                forall|j: int| 0 <= j < i as int ==> self.items@[j].filepath@ != filepath@,
            decreases n - i,
        {
            if str_equal(self.items[i].filepath.as_str(), filepath) {
                self.items[i].status = status;
                proof {
                    let k = i as int;
                    assert(self.items@ =~= old(self).items@.update(
                        k,
                        spec_with_status(old(self).items@[k], status),
                    ));
                    assert forall|a: int, b: int|
                        0 <= a < b < self.items@.len() implies self.items@[a].filename@
                        != self.items@[b].filename@ by {
                        assert(self.items@[a].filename@ == old(self).items@[a].filename@);
                        assert(self.items@[b].filename@ == old(self).items@[b].filename@);
                    }
                }
                return true;
            }
            i = i + 1;
        }
        false
    }

    /// The filepaths of the rows with a given status, in discovery order:
    /// with `Pending`, the batch's work list.
    pub fn list_by_status(&self, status: WorkStatus) -> (r: Vec<String>)
        ensures
            r@.map_values(|p: String| p@) == spec_paths_with_status(self.items@, status),
    {
        let mut out: Vec<String> = Vec::new();
        let mut i: usize = 0;
        while i < self.items.len()
            invariant
                0 <= i <= self.items@.len(),
                out@.map_values(|p: String| p@) == spec_paths_with_status(
                    self.items@.take(i as int),
                    status,
                ),
            decreases self.items@.len() - i,
        {
            proof {
                assert(self.items@.take(i as int + 1).drop_last() =~= self.items@.take(i as int));
                assert(self.items@.take(i as int + 1).last() == self.items@[i as int]);
            }
            if self.items[i].status == status {
                out.push(self.items[i].filepath.clone());
                proof {
                    assert(out@.map_values(|p: String| p@) =~= spec_paths_with_status(
                        self.items@.take(i as int + 1),
                        status,
                    ));
                }
            }
            i = i + 1;
        }
        proof {
            assert(self.items@.take(self.items@.len() as int) =~= self.items@);
        }
        out
    }
}

} // verus!
