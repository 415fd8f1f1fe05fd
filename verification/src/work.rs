//! The per-session job queue: jobs carry dependency lists and are released
//! only when every dependency has completed or been superseded by a flush.

use vstd::prelude::*;

use crate::protocol::{BlockWrite, ReadRequest, UpstairsConnection};

verus! {

/// Lifecycle of a job: `New -> DepWait -> InProgress -> {Done | Error}`,
/// where `DepWait` may be skipped. Terminal states are never stored: a
/// finished job is removed from the queue instead.
#[derive(Clone, Copy, Debug, PartialEq, Eq, Structural)]
pub enum WorkState {
    New,
    DepWait,
    InProgress,
    Done,
    Error,
}

impl WorkState {
    /// Short fixed-width tag for this state, as shown in work listings.
    pub fn label(&self) -> (r: &'static str)
        ensures
            r@ == self.spec_label(),
    {
        proof {
            reveal_strlit(" New");
            reveal_strlit("DepW");
            reveal_strlit("In P");
            reveal_strlit("Done");
            reveal_strlit(" Err");
        }
        match self {
            WorkState::New => " New",
            WorkState::DepWait => "DepW",
            WorkState::InProgress => "In P",
            WorkState::Done => "Done",
            WorkState::Error => " Err",
        }
    }

    pub open spec fn spec_label(self) -> Seq<char> {
        match self {
            WorkState::New => " New"@,
            WorkState::DepWait => "DepW"@,
            WorkState::InProgress => "In P"@,
            WorkState::Done => "Done"@,
            WorkState::Error => " Err"@,
        }
    }
}

/// One IO operation, tagged with the job ids it depends on.
#[derive(Clone, Debug, PartialEq)]
pub enum IOop {
    Write {
        dependencies: Vec<u64>,
        writes: Vec<BlockWrite>,
    },
    WriteUnwritten {
        dependencies: Vec<u64>,
        writes: Vec<BlockWrite>,
    },
    Flush {
        dependencies: Vec<u64>,
        flush_number: u64,
        gen_number: u64,
        snapshot_details: Option<String>,
    },
    Read {
        dependencies: Vec<u64>,
        requests: Vec<ReadRequest>,
    },
}

impl IOop {
    /// The dependency list of this operation.
    pub open spec fn spec_deps(self) -> Seq<u64> {
        match self {
            IOop::Write { dependencies, .. } => dependencies@,
            IOop::WriteUnwritten { dependencies, .. } => dependencies@,
            IOop::Flush { dependencies, .. } => dependencies@,
            IOop::Read { dependencies, .. } => dependencies@,
        }
    }

    pub fn deps(&self) -> (r: &Vec<u64>)
        ensures
            r@ == self.spec_deps(),
    {
        match self {
            IOop::Write { dependencies, .. } => dependencies,
            IOop::WriteUnwritten { dependencies, .. } => dependencies,
            IOop::Flush { dependencies, .. } => dependencies,
            IOop::Read { dependencies, .. } => dependencies,
        }
    }

    /// Write-class operations are the ones a read-only node must reject.
    pub open spec fn spec_is_write(self) -> bool {
        self matches IOop::Write { .. } || self matches IOop::WriteUnwritten { .. }
    }

    pub fn is_write(&self) -> (r: bool)
        ensures
            r == self.spec_is_write(),
    {
        match self {
            IOop::Write { .. } => true,
            IOop::WriteUnwritten { .. } => true,
            _ => false,
        }
    }
}

/// A job in flight: its owning session, its id, its operation and its state.
#[derive(Clone, Debug, PartialEq)]
pub struct DownstairsWork {
    pub upstairs_connection: UpstairsConnection,
    pub ds_id: u64,
    pub work: IOop,
    pub state: WorkState,
}

/// The queue of one session. `active` is kept strictly sorted by job id, so
/// it is also a map from id to job. `completed` records the ids finished
/// since the most recent flush; ids at or below `last_flush` count as
/// completed without being recorded.
#[derive(Debug)]
pub struct Work {
    pub active: Vec<DownstairsWork>,
    pub last_flush: u64,
    pub completed: Vec<u64>,
}

impl Work {
    /// Well-formed queues are strictly sorted by job id, which also makes
    /// every id unique.
    pub open spec fn wf(self) -> bool {
        forall|i: int, j: int|
            #![trigger self.active@[i], self.active@[j]]
            0 <= i < j < self.active@.len() ==> self.active@[i].ds_id < self.active@[j].ds_id
    }

    /// Every resident job is owned by `conn`.
    pub open spec fn owned_by(self, conn: UpstairsConnection) -> bool {
        forall|i: int|
            0 <= i < self.active@.len() ==> #[trigger] self.active@[i].upstairs_connection == conn
    }

    pub open spec fn contains_id(self, id: u64) -> bool {
        exists|i: int| 0 <= i < self.active@.len() && #[trigger] self.active@[i].ds_id == id
    }

    pub open spec fn job_index(self, id: u64) -> int {
        choose|i: int| 0 <= i < self.active@.len() && #[trigger] self.active@[i].ds_id == id
    }

    /// The resident job under `id`; meaningful only when `contains_id(id)`.
    pub open spec fn job(self, id: u64) -> DownstairsWork {
        self.active@[self.job_index(id)]
    }

    /// A dependency is satisfied once it is at or below the flush horizon or
    /// recorded as completed.
    pub open spec fn dep_satisfied(self, d: u64) -> bool {
        d <= self.last_flush || self.completed@.contains(d)
    }

    pub open spec fn deps_satisfied(self, deps: Seq<u64>) -> bool {
        forall|i: int| 0 <= i < deps.len() ==> self.dep_satisfied(#[trigger] deps[i])
    }

    /// In a well-formed queue an id occurs at exactly one index.
    pub proof fn lemma_job_at(self, id: u64, i: int)
        requires
            self.wf(),
            0 <= i < self.active@.len(),
            self.active@[i].ds_id == id,
        ensures
            self.contains_id(id),
            self.job_index(id) == i,
            self.job(id) == self.active@[i],
    {
        assert(self.contains_id(id));
        let k = self.job_index(id);
        if k < i {
            assert(self.active@[k].ds_id < self.active@[i].ds_id);
        } else if k > i {
            assert(self.active@[i].ds_id < self.active@[k].ds_id);
        }
    }

    pub fn new() -> (w: Work)
        ensures
            w.active@.len() == 0,
            w.last_flush == 0,
            w.completed@.len() == 0,
            w.wf(),
    {
        Work { active: Vec::new(), last_flush: 0, completed: Vec::new() }
    }

    /// Reset the queue: drop all resident jobs, the flush horizon and the
    /// completed record.
    pub fn clear(&mut self)
        ensures
            final(self).active@.len() == 0,
            final(self).last_flush == 0,
            final(self).completed@.len() == 0,
            final(self).wf(),
    {
        self.active = Vec::new();
        self.last_flush = 0;
        self.completed = Vec::new();
    }

    /// Number of resident jobs.
    pub fn jobs(&self) -> (r: usize)
        ensures
            r == self.active@.len(),
    {
        self.active.len()
    }

    /// Index of the resident job under `id`, if any.
    fn find(&self, id: u64) -> (r: Option<usize>)
        requires
            self.wf(),
        ensures
            match r {
                Some(i) => self.contains_id(id) && i == self.job_index(id)
                    && i < self.active@.len() && self.active@[i as int].ds_id == id,
                None => !self.contains_id(id),
            },
    {
        let n = self.active.len();
        let mut i: usize = 0;
        while i < n
            invariant
                self.wf(),
                n == self.active@.len(),
                0 <= i <= n,
                forall|k: int| 0 <= k < i ==> #[trigger] self.active@[k].ds_id != id,
            decreases n - i,
        {
            if self.active[i].ds_id == id {
                proof {
                    self.lemma_job_at(id, i as int);
                }
                return Some(i);
            }
            i = i + 1;
        }
        None
    }

    /// The resident job under `id`, if any.
    pub fn get_job(&self, id: u64) -> (r: Option<&DownstairsWork>)
        requires
            self.wf(),
        ensures
            match r {
                Some(j) => self.contains_id(id) && *j == self.job(id),
                None => !self.contains_id(id),
            },
    {
        match self.find(id) {
            Some(i) => Some(&self.active[i]),
            None => None,
        }
    }

    /// Insert `dsw` under `ds_id`. An id already resident is overwritten,
    /// as spelled out in the postcondition; no other entry changes.
    pub fn add_work(&mut self, ds_id: u64, dsw: DownstairsWork)
        requires
            old(self).wf(),
            dsw.ds_id == ds_id,
        ensures
            add_rel(*old(self), *final(self), ds_id, dsw),
            final(self).wf(),
            final(self).contains_id(ds_id),
            final(self).job(ds_id) == dsw,
            forall|other: u64|
                other != ds_id ==> (#[trigger] final(self).contains_id(other) == old(self).contains_id(other)),
            forall|other: u64|
                other != ds_id && old(self).contains_id(other) ==> #[trigger] final(self).job(other)
                    == old(self).job(other),
            final(self).active@.len() == old(self).active@.len() + (
            if old(self).contains_id(ds_id) {
                0int
            } else {
                1int
            }),
            final(self).last_flush == old(self).last_flush,
            final(self).completed@ == old(self).completed@,
    {
        let ghost pre = *self;
        let n = self.active.len();
        let mut i: usize = 0;
        while i < n && self.active[i].ds_id < ds_id
            invariant
                *self == pre,
                n == self.active@.len(),
                0 <= i <= n,
                forall|k: int| 0 <= k < i ==> #[trigger] self.active@[k].ds_id < ds_id,
            decreases n - i,
        {
            i = i + 1;
        }
        // i is the first index whose id is >= ds_id (or the length).
        if i < n && self.active[i].ds_id == ds_id {
            proof {
                pre.lemma_job_at(ds_id, i as int);
            }
            self.active[i] = dsw;
            proof {
                assert forall|other: u64| other != ds_id implies (final(self).contains_id(other)
                    == pre.contains_id(other)) by {
                    if pre.contains_id(other) {
                        let k = pre.job_index(other);
                        assert(self.active@[k].ds_id == other);
                    }
                    if self.contains_id(other) {
                        let k = self.job_index(other);
                        assert(pre.active@[k].ds_id == other);
                    }
                }
                assert forall|other: u64| other != ds_id && pre.contains_id(other) implies final(self).job(other) == pre.job(other) by {
                    let k = pre.job_index(other);
                    pre.lemma_job_at(other, k);
                    self.lemma_job_at(other, k);
                }
                self.lemma_job_at(ds_id, i as int);
            }
        } else {
            proof {
                if pre.contains_id(ds_id) {
                    let k = pre.job_index(ds_id);
                    if k < i {
                    } else {
                        assert(i < n ==> pre.active@[i as int].ds_id > ds_id);
                        if k > i {
                            assert(pre.active@[i as int].ds_id < pre.active@[k].ds_id);
                        }
                    }
                    assert(false);
                }
            }
            self.active.insert(i, dsw);
            proof {
                let s = self.active@;
                let p = pre.active@;
                assert forall|a: int, b: int|
                    #![trigger s[a], s[b]]
                    0 <= a < b < s.len() implies s[a].ds_id < s[b].ds_id by {
                    if b < i {
                        assert(s[a] == p[a] && s[b] == p[b]);
                    } else if a < i && b == i {
                        assert(s[a] == p[a]);
                    } else if a < i && b > i {
                        assert(s[a] == p[a] && s[b] == p[b - 1]);
                        if b - 1 == i as int {
                            assert(p[b - 1].ds_id >= ds_id && p[b - 1].ds_id != ds_id);
                        } else {
                            assert(p[i as int].ds_id > ds_id);
                        }
                    } else if a == i {
                        assert(s[b] == p[b - 1] && p[b - 1].ds_id >= ds_id);
                        if b - 1 == i as int {
                            assert(p[b - 1].ds_id != ds_id);
                        } else {
                            assert(p[i as int].ds_id < p[b - 1].ds_id);
                            assert(p[i as int].ds_id >= ds_id);
                        }
                    } else {
                        assert(s[a] == p[a - 1] && s[b] == p[b - 1]);
                    }
                }
                self.lemma_job_at(ds_id, i as int);
                assert forall|other: u64| other != ds_id implies (final(self).contains_id(other)
                    == pre.contains_id(other)) by {
                    if pre.contains_id(other) {
                        let k = pre.job_index(other);
                        if k < i {
                            assert(self.active@[k].ds_id == other);
                        } else {
                            assert(self.active@[k + 1].ds_id == other);
                        }
                    }
                    if self.contains_id(other) {
                        let k = self.job_index(other);
                        if k < i {
                            assert(pre.active@[k].ds_id == other);
                        } else {
                            assert(pre.active@[k - 1].ds_id == other);
                        }
                    }
                }
                assert forall|other: u64| other != ds_id && pre.contains_id(other) implies final(self).job(other) == pre.job(other) by {
                    let k = pre.job_index(other);
                    pre.lemma_job_at(other, k);
                    if k < i {
                        self.lemma_job_at(other, k);
                    } else {
                        self.lemma_job_at(other, k + 1);
                    }
                }
            }
        }
    }

    /// A job is pending while it waits in state `New` or `DepWait`.
    pub open spec fn pending(self, id: u64) -> bool {
        self.contains_id(id) && (self.job(id).state == WorkState::New || self.job(id).state
            == WorkState::DepWait)
    }

    /// The ids of all pending jobs, in ascending order.
    pub fn new_work(&self, upstairs_connection: UpstairsConnection) -> (r: Vec<u64>)
        requires
            self.wf(),
            self.owned_by(upstairs_connection),
        ensures
            forall|a: int, b: int| 0 <= a < b < r@.len() ==> r@[a] < r@[b],
            forall|id: u64| #[trigger] r@.contains(id) == self.pending(id),
    {
        let n = self.active.len();
        let mut r: Vec<u64> = Vec::new();
        let mut i: usize = 0;
        while i < n
            invariant
                self.wf(),
                n == self.active@.len(),
                0 <= i <= n,
                forall|a: int, b: int| 0 <= a < b < r@.len() ==> r@[a] < r@[b],
                i < n && r@.len() > 0 ==> r@[r@.len() - 1] < self.active@[i as int].ds_id,
                forall|k: int|
                    #![trigger r@[k]]
                    0 <= k < r@.len() ==> exists|t: int|
                        0 <= t < n && #[trigger] self.active@[t].ds_id == r@[k] && (
                        self.active@[t].state == WorkState::New || self.active@[t].state
                            == WorkState::DepWait),
                forall|t: int|
                    0 <= t < i && (#[trigger] self.active@[t].state == WorkState::New
                        || self.active@[t].state == WorkState::DepWait) ==> r@.contains(
                        self.active@[t].ds_id,
                    ),
            decreases n - i,
        {
            let ghost r0 = r@;
            let st = self.active[i].state;
            if st == WorkState::New || st == WorkState::DepWait {
                r.push(self.active[i].ds_id);
                proof {
                    assert forall|a: int, b: int| 0 <= a < b < r@.len() implies r@[a] < r@[b] by {
                        if b == r@.len() - 1 {
                            if a < r0.len() - 1 {
                                assert(r0[a] < r0[r0.len() - 1]);
                            }
                            assert(r@[b] == self.active@[i as int].ds_id);
                        } else {
                            assert(r@[a] == r0[a] && r@[b] == r0[b]);
                        }
                    }
                    assert(r@.contains(self.active@[i as int].ds_id)) by {
                        assert(r@[r@.len() - 1] == self.active@[i as int].ds_id);
                    }
                    assert forall|k: int| 0 <= k < r0.len() implies r@.contains(r0[k]) by {
                        assert(r@[k] == r0[k]);
                    }
                    assert forall|k: int| #![trigger r@[k]] 0 <= k < r@.len() implies exists|t: int|
                        0 <= t < n && #[trigger] self.active@[t].ds_id == r@[k] && (
                        self.active@[t].state == WorkState::New || self.active@[t].state
                            == WorkState::DepWait) by {
                        if k < r0.len() {
                            assert(r@[k] == r0[k]);
                        } else {
                            assert(self.active@[i as int].ds_id == r@[k] && (
                            self.active@[i as int].state == WorkState::New
                                || self.active@[i as int].state == WorkState::DepWait));
                        }
                    }
                }
            }
            proof {
                if i + 1 < n && r@.len() > 0 {
                    assert(self.active@[i as int].ds_id < self.active@[i + 1].ds_id);
                    if r@.len() > r0.len() {
                        assert(r@[r@.len() - 1] == self.active@[i as int].ds_id);
                    } else {
                        assert(r@[r@.len() - 1] < self.active@[i as int].ds_id);
                    }
                }
            }
            i = i + 1;
        }
        proof {
            assert forall|id: u64| #[trigger] r@.contains(id) == self.pending(id) by {
                if r@.contains(id) {
                    let k = choose|k: int| 0 <= k < r@.len() && r@[k] == id;
                    let t = choose|t: int|
                        0 <= t < n && #[trigger] self.active@[t].ds_id == r@[k] && (
                        self.active@[t].state == WorkState::New || self.active@[t].state
                            == WorkState::DepWait);
                    self.lemma_job_at(id, t);
                }
                if self.pending(id) {
                    let t = self.job_index(id);
                    assert(self.active@[t].state == WorkState::New || self.active@[t].state
                        == WorkState::DepWait);
                }
            }
        }
        r
    }

    /// Whether every dependency of the job at index `i` is satisfied.
    fn deps_done(&self, i: usize) -> (b: bool)
        requires
            i < self.active@.len(),
        ensures
            b == self.deps_satisfied(self.active@[i as int].work.spec_deps()),
    {
        let deps = self.active[i].work.deps();
        let n = deps.len();
        let mut k: usize = 0;
        while k < n
            invariant
                n == deps@.len(),
                deps@ == self.active@[i as int].work.spec_deps(),
                i < self.active@.len(),
                0 <= k <= n,
                forall|t: int| 0 <= t < k ==> self.dep_satisfied(#[trigger] deps@[t]),
            decreases n - k,
        {
            let d = deps[k];
            if d > self.last_flush && !contains_u64(&self.completed, d) {
                return false;
            }
            k = k + 1;
        }
        true
    }

    /// Try to start the job under `ds_id`: if it is pending and every
    /// dependency is satisfied, mark it in progress and return its identity.
    /// A pending job with an unmet dependency moves to (or stays in)
    /// `DepWait`. Anything else, including an id that is no longer resident
    /// after an eviction, changes nothing and returns `None`.
    pub fn in_progress(&mut self, ds_id: u64) -> (r: Option<(u64, UpstairsConnection)>)
        requires
            old(self).wf(),
        ensures
            start_rel(*old(self), *final(self), ds_id, r),
            final(self).wf(),
            final(self).last_flush == old(self).last_flush,
            final(self).completed@ == old(self).completed@,
            forall|id: u64| #[trigger] final(self).contains_id(id) == old(self).contains_id(id),
            forall|id: u64|
                id != ds_id && old(self).contains_id(id) ==> #[trigger] final(self).job(id) == old(self).job(id),
            !old(self).contains_id(ds_id) ==> r is None && *final(self) == *old(self),
            old(self).pending(ds_id) && old(self).deps_satisfied(
                old(self).job(ds_id).work.spec_deps(),
            ) ==> {
                &&& r == Some((ds_id, old(self).job(ds_id).upstairs_connection))
                &&& final(self).job(ds_id) == DownstairsWork {
                    state: WorkState::InProgress,
                    ..old(self).job(ds_id)
                }
            },
            old(self).pending(ds_id) && !old(self).deps_satisfied(
                old(self).job(ds_id).work.spec_deps(),
            ) ==> {
                &&& r is None
                &&& final(self).job(ds_id) == DownstairsWork {
                    state: WorkState::DepWait,
                    ..old(self).job(ds_id)
                }
            },
            old(self).contains_id(ds_id) && !old(self).pending(ds_id) ==> r is None && *final(self) == *old(self),
    {
        let ghost pre = *self;
        let i = match self.find(ds_id) {
            Some(i) => i,
            None => {
                return None;
            },
        };
        let st = self.active[i].state;
        if !(st == WorkState::New || st == WorkState::DepWait) {
            return None;
        }
        let ok = self.deps_done(i);
        let ghost before = self.active@[i as int];
        if ok {
            let j = &mut self.active[i];
            j.state = WorkState::InProgress;
            let conn = self.active[i].upstairs_connection;
            proof {
                self.in_progress_frame(pre, ds_id, i as int);
            }
            Some((ds_id, conn))
        } else {
            if st == WorkState::New {
                let j = &mut self.active[i];
                j.state = WorkState::DepWait;
            }
            proof {
                self.in_progress_frame(pre, ds_id, i as int);
            }
            None
        }
    }

    /// Updating only the state of the job at index `i` keeps the queue
    /// well-formed and leaves every other job as it was.
    proof fn in_progress_frame(self, pre: Work, ds_id: u64, i: int)
        requires
            pre.wf(),
            0 <= i < pre.active@.len(),
            pre.active@[i].ds_id == ds_id,
            self.active@.len() == pre.active@.len(),
            self.active@[i].ds_id == ds_id,
            self.active@[i].upstairs_connection == pre.active@[i].upstairs_connection,
            self.active@[i].work == pre.active@[i].work,
            forall|k: int| 0 <= k < pre.active@.len() && k != i ==> self.active@[k] == pre.active@[k],
            self.last_flush == pre.last_flush,
            self.completed@ == pre.completed@,
        ensures
            self.wf(),
            forall|id: u64| #[trigger] self.contains_id(id) == pre.contains_id(id),
            forall|id: u64|
                id != ds_id && pre.contains_id(id) ==> #[trigger] self.job(id) == pre.job(id),
            self.contains_id(ds_id),
            self.job(ds_id) == self.active@[i],
    {
        assert forall|a: int, b: int|
            #![trigger self.active@[a], self.active@[b]]
            0 <= a < b < self.active@.len() implies self.active@[a].ds_id < self.active@[b].ds_id by {
            assert(self.active@[a].ds_id == pre.active@[a].ds_id);
            assert(self.active@[b].ds_id == pre.active@[b].ds_id);
        }
        assert forall|id: u64| #[trigger] self.contains_id(id) == pre.contains_id(id) by {
            if self.contains_id(id) {
                let k = self.job_index(id);
                assert(pre.active@[k].ds_id == id);
            }
            if pre.contains_id(id) {
                let k = pre.job_index(id);
                assert(self.active@[k].ds_id == id);
            }
        }
        assert forall|id: u64| id != ds_id && pre.contains_id(id) implies #[trigger] self.job(id)
            == pre.job(id) by {
            let k = pre.job_index(id);
            pre.lemma_job_at(id, k);
            assert(k != i);
            self.lemma_job_at(id, k);
        }
        self.lemma_job_at(ds_id, i);
    }

    /// Hand out the job under `job_id` for execution. The caller vouches, as
    /// the worker does by starting jobs only through `in_progress`, that a
    /// resident job under this id is in progress with its dependencies
    /// satisfied; an id cleared by an eviction yields `None`.
    pub fn get_ready_job(&self, job_id: u64) -> (r: Option<&DownstairsWork>)
        requires
            self.wf(),
            self.contains_id(job_id) ==> self.job(job_id).state == WorkState::InProgress
                && self.deps_satisfied(self.job(job_id).work.spec_deps()),
        ensures
            match r {
                Some(j) => self.contains_id(job_id) && *j == self.job(job_id),
                None => !self.contains_id(job_id),
            },
    {
        match self.find(job_id) {
            Some(i) => Some(&self.active[i]),
            None => None,
        }
    }

    /// Retire the job under `ds_id`. A flush resets the completed record and
    /// becomes the new flush horizon; any other job is appended to the
    /// completed record. An id that is no longer resident changes nothing.
    pub fn complete(&mut self, ds_id: u64, is_flush: bool)
        requires
            old(self).wf(),
        ensures
            complete_rel(*old(self), *final(self), ds_id, is_flush),
            final(self).wf(),
            !old(self).contains_id(ds_id) ==> *final(self) == *old(self),
            old(self).contains_id(ds_id) ==> {
                &&& !final(self).contains_id(ds_id)
                &&& final(self).active@.len() == old(self).active@.len() - 1
                &&& forall|id: u64|
                    id != ds_id ==> (#[trigger] final(self).contains_id(id) == old(self).contains_id(id))
                &&& forall|id: u64|
                    id != ds_id && old(self).contains_id(id) ==> #[trigger] final(self).job(id)
                        == old(self).job(id)
                &&& (is_flush ==> final(self).last_flush == ds_id && final(self).completed@
                    =~= Seq::<u64>::empty())
                &&& (!is_flush ==> final(self).last_flush == old(self).last_flush && final(self).completed@ == old(self).completed@.push(ds_id))
            },
    {
        let ghost pre = *self;
        let i = match self.find(ds_id) {
            Some(i) => i,
            None => {
                return;
            },
        };
        self.active.remove(i);
        if is_flush {
            self.last_flush = ds_id;
            self.completed = Vec::new();
        } else {
            self.completed.push(ds_id);
        }
        proof {
            let s = self.active@;
            let p = pre.active@;
            assert forall|a: int, b: int|
                #![trigger s[a], s[b]]
                0 <= a < b < s.len() implies s[a].ds_id < s[b].ds_id by {
                if b < i {
                } else if a < i {
                    assert(s[b] == p[b + 1]);
                } else {
                    assert(s[a] == p[a + 1] && s[b] == p[b + 1]);
                }
            }
            if self.contains_id(ds_id) {
                let k = self.job_index(ds_id);
                if k < i {
                    assert(p[k].ds_id == ds_id);
                    pre.lemma_job_at(ds_id, k);
                    pre.lemma_job_at(ds_id, i as int);
                } else {
                    assert(p[k + 1].ds_id == ds_id);
                    pre.lemma_job_at(ds_id, k + 1);
                    pre.lemma_job_at(ds_id, i as int);
                }
                assert(false);
            }
            assert forall|id: u64| id != ds_id implies (#[trigger] self.contains_id(id)
                == pre.contains_id(id)) by {
                if self.contains_id(id) {
                    let k = self.job_index(id);
                    if k < i {
                        assert(p[k].ds_id == id);
                    } else {
                        assert(p[k + 1].ds_id == id);
                    }
                }
                if pre.contains_id(id) {
                    let k = pre.job_index(id);
                    assert(k != i);
                    if k < i {
                        assert(s[k].ds_id == id);
                    } else {
                        assert(s[k - 1].ds_id == id);
                    }
                }
            }
            assert forall|id: u64| id != ds_id && pre.contains_id(id) implies #[trigger] self.job(
                id,
            ) == pre.job(id) by {
                let k = pre.job_index(id);
                pre.lemma_job_at(id, k);
                assert(k != i);
                if k < i {
                    self.lemma_job_at(id, k);
                } else {
                    self.lemma_job_at(id, k - 1);
                }
            }
        }
    }

    /// Dependency safety: whenever `in_progress` starts a job — the one
    /// gate through which the worker takes a job toward execution and its
    /// acknowledgement — every dependency of that job is satisfied in the
    /// resulting queue, and the job is marked in progress.
    pub proof fn lemma_dependency_safety(
        pre: Work,
        post: Work,
        ds_id: u64,
        r: Option<(u64, UpstairsConnection)>,
    )
        requires
            pre.wf(),
            start_rel(pre, post, ds_id, r),
            r is Some,
        ensures
            post.contains_id(ds_id),
            post.job(ds_id).state == WorkState::InProgress,
            post.deps_satisfied(post.job(ds_id).work.spec_deps()),
    {
        if !pre.contains_id(ds_id) {
            assert(r is None);
        } else if !pre.pending(ds_id) {
            assert(r is None);
        } else if !pre.deps_satisfied(pre.job(ds_id).work.spec_deps()) {
            assert(r is None);
        }
        assert(post.job(ds_id).work == pre.job(ds_id).work);
        assert forall|i: int|
            0 <= i < post.job(ds_id).work.spec_deps().len() implies post.dep_satisfied(
            #[trigger] post.job(ds_id).work.spec_deps()[i],
        ) by {
            assert(pre.dep_satisfied(pre.job(ds_id).work.spec_deps()[i]));
        }
    }

    /// The flush horizon subsumes earlier work: a dependency list drawn
    /// entirely from ids at or below `last_flush` is satisfied outright,
    /// even though none of those ids is individually recorded.
    pub proof fn lemma_flush_horizon(self, deps: Seq<u64>)
        requires
            forall|i: int| 0 <= i < deps.len() ==> #[trigger] deps[i] <= self.last_flush,
        ensures
            self.deps_satisfied(deps),
    {
    }

    /// A job submitted after a flush, all of whose dependencies are at or
    /// below that flush's id, is immediately runnable: it sits pending with
    /// every dependency satisfied, so `in_progress` will start it.
    pub proof fn lemma_flush_unblocks(
        after_flush: Work,
        after_add: Work,
        f: u64,
        ds_id: u64,
        dsw: DownstairsWork,
    )
        requires
            after_flush.last_flush == f,
            add_rel(after_flush, after_add, ds_id, dsw),
            forall|i: int|
                0 <= i < dsw.work.spec_deps().len() ==> #[trigger] dsw.work.spec_deps()[i] <= f,
            dsw.state == WorkState::New,
        ensures
            after_add.pending(ds_id),
            after_add.deps_satisfied(after_add.job(ds_id).work.spec_deps()),
    {
        assert(after_add.job(ds_id) == dsw);
        assert(after_add.last_flush == f);
        after_add.lemma_flush_horizon(dsw.work.spec_deps());
    }
}

/// How `add_work(ds_id, dsw)` takes a queue from `pre` to `post`: `dsw` is
/// resident under `ds_id`, every other entry and the completion record are
/// untouched.
pub open spec fn add_rel(pre: Work, post: Work, ds_id: u64, dsw: DownstairsWork) -> bool {
    &&& post.wf()
    &&& post.contains_id(ds_id)
    &&& post.job(ds_id) == dsw
    &&& forall|other: u64|
        other != ds_id ==> (#[trigger] post.contains_id(other) == pre.contains_id(other))
    &&& forall|other: u64|
        other != ds_id && pre.contains_id(other) ==> #[trigger] post.job(other) == pre.job(other)
    &&& post.active@.len() == pre.active@.len() + (if pre.contains_id(ds_id) { 0int } else { 1int })
    &&& post.last_flush == pre.last_flush
    &&& post.completed@ == pre.completed@
}

/// How `in_progress(ds_id)` takes a queue from `pre` to `post` with result
/// `r`: a pending job with satisfied dependencies moves to `InProgress` and
/// is returned; a pending job with an unmet dependency moves to `DepWait`;
/// anything else changes nothing. No other job, the horizon or the
/// completion record ever changes.
pub open spec fn start_rel(
    pre: Work,
    post: Work,
    ds_id: u64,
    r: Option<(u64, UpstairsConnection)>,
) -> bool {
    &&& post.wf()
    &&& post.last_flush == pre.last_flush
    &&& post.completed@ == pre.completed@
    &&& forall|id: u64| #[trigger] post.contains_id(id) == pre.contains_id(id)
    &&& forall|id: u64|
        id != ds_id && pre.contains_id(id) ==> #[trigger] post.job(id) == pre.job(id)
    &&& (!pre.contains_id(ds_id) ==> r is None && post == pre)
    &&& (pre.pending(ds_id) && pre.deps_satisfied(pre.job(ds_id).work.spec_deps()) ==> {
        &&& r == Some((ds_id, pre.job(ds_id).upstairs_connection))
        &&& post.job(ds_id) == (DownstairsWork { state: WorkState::InProgress, ..pre.job(ds_id) })
    })
    &&& (pre.pending(ds_id) && !pre.deps_satisfied(pre.job(ds_id).work.spec_deps()) ==> {
        &&& r is None
        &&& post.job(ds_id) == (DownstairsWork { state: WorkState::DepWait, ..pre.job(ds_id) })
    })
    &&& (pre.contains_id(ds_id) && !pre.pending(ds_id) ==> r is None && post == pre)
}

/// How `complete(ds_id, is_flush)` takes a queue from `pre` to `post`: the
/// job is removed; a flush resets the completion record and advances the
/// horizon to `ds_id`, any other job is appended to the record. An id that
/// is not resident changes nothing.
pub open spec fn complete_rel(pre: Work, post: Work, ds_id: u64, is_flush: bool) -> bool {
    &&& post.wf()
    &&& (!pre.contains_id(ds_id) ==> post == pre)
    &&& (pre.contains_id(ds_id) ==> {
        &&& !post.contains_id(ds_id)
        &&& post.active@.len() == pre.active@.len() - 1
        &&& forall|id: u64|
            id != ds_id ==> (#[trigger] post.contains_id(id) == pre.contains_id(id))
        &&& forall|id: u64|
            id != ds_id && pre.contains_id(id) ==> #[trigger] post.job(id) == pre.job(id)
        &&& (is_flush ==> post.last_flush == ds_id && post.completed@ =~= Seq::<u64>::empty())
        &&& (!is_flush ==> post.last_flush == pre.last_flush && post.completed@
            == pre.completed@.push(ds_id))
    })
}

/// Whether `x` occurs in `v`.
fn contains_u64(v: &Vec<u64>, x: u64) -> (b: bool)
    ensures
        b == v@.contains(x),
{
    let n = v.len();
    let mut i: usize = 0;
    while i < n
        invariant
            n == v@.len(),
            0 <= i <= n,
            forall|k: int| 0 <= k < i ==> v@[k] != x,
        decreases n - i,
    {
        if v[i] == x {
            return true;
        }
        i = i + 1;
    }
    false
}

impl Default for Work {
    /// A fresh, empty queue.
    fn default() -> (w: Work)
        ensures
            w.active@.len() == 0,
            w.last_flush == 0,
            w.completed@.len() == 0,
            w.wf(),
    {
        Work::new()
    }
}

} // verus!
