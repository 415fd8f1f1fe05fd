//! Process-wide state of the node: the registry of active upstairs sessions,
//! promotion arbitration with generation fencing, and the checked gateway
//! through which every queue access must pass.

use vstd::prelude::*;

use crate::notify::{send_terminate, TerminateSender};
use crate::protocol::{
    CrucibleError, Message, ReadResponse, RegionDefinition, UpstairsConnection,
};
use crate::work::{add_rel, complete_rel, start_rel, DownstairsWork, IOop, Work, WorkState};

verus! {

/// One registered session: its identity, its private work queue, and the
/// channel on which it is told when a newer session evicts it.
pub struct ActiveUpstairs {
    pub upstairs_connection: UpstairsConnection,
    pub work: Work,
    pub terminate_sender: TerminateSender,
}

/// Per-operation counters kept for telemetry.
#[derive(Clone, Copy, Debug, PartialEq, Eq, Structural)]
pub struct DsCountStat {
    pub connections: u64,
    pub reads: u64,
    pub writes: u64,
    pub flushes: u64,
}

/// Counter increment that never wraps.
pub open spec fn bump(c: u64) -> u64 {
    if c < u64::MAX {
        (c + 1) as u64
    } else {
        c
    }
}

/// The node: region geometry, configuration flags, counters, and the
/// registry of active sessions keyed by upstairs id.
pub struct Downstairs {
    pub region_def: RegionDefinition,
    /// Test flag: the worker adds random pauses and skips.
    pub lossy: bool,
    /// Test flag: IOs randomly report a generic failure.
    pub return_errors: bool,
    pub active_upstairs: Vec<ActiveUpstairs>,
    pub dss: DsCountStat,
    pub read_only: bool,
    pub encrypted: bool,
    pub address: Option<String>,
    pub repair_address: Option<String>,
}

impl Downstairs {
    /// No two registered sessions share an upstairs id.
    pub open spec fn uids_unique(self) -> bool {
        forall|i: int, j: int|
            #![trigger self.active_upstairs@[i], self.active_upstairs@[j]]
            0 <= i < j < self.active_upstairs@.len()
                ==> self.active_upstairs@[i].upstairs_connection.upstairs_id
                != self.active_upstairs@[j].upstairs_connection.upstairs_id
    }

    /// Registry invariant: ids unique; a read-write node has at most one
    /// session; every queue is well-formed and owned by its session.
    pub open spec fn inv(self) -> bool {
        &&& self.uids_unique()
        &&& (!self.read_only ==> self.active_upstairs@.len() <= 1)
        &&& forall|i: int|
            0 <= i < self.active_upstairs@.len() ==> (#[trigger] self.active_upstairs@[i]).work.wf()
                && self.active_upstairs@[i].work.owned_by(
                self.active_upstairs@[i].upstairs_connection,
            )
    }

    pub open spec fn has_uid(self, uid: u128) -> bool {
        exists|i: int|
            0 <= i < self.active_upstairs@.len()
                && (#[trigger] self.active_upstairs@[i]).upstairs_connection.upstairs_id == uid
    }

    pub open spec fn uid_index(self, uid: u128) -> int {
        choose|i: int|
            0 <= i < self.active_upstairs@.len()
                && (#[trigger] self.active_upstairs@[i]).upstairs_connection.upstairs_id == uid
    }

    /// The registry entry under `uid`; meaningful only when `has_uid(uid)`.
    pub open spec fn entry(self, uid: u128) -> ActiveUpstairs {
        self.active_upstairs@[self.uid_index(uid)]
    }

    /// A connection is active only when the entry under its upstairs id
    /// matches it in all three fields.
    pub open spec fn is_active_spec(self, conn: UpstairsConnection) -> bool {
        self.has_uid(conn.upstairs_id) && self.entry(conn.upstairs_id).upstairs_connection == conn
    }

    /// With unique ids an upstairs id occurs at exactly one index.
    pub proof fn lemma_entry_at(self, uid: u128, i: int)
        requires
            self.uids_unique(),
            0 <= i < self.active_upstairs@.len(),
            self.active_upstairs@[i].upstairs_connection.upstairs_id == uid,
        ensures
            self.has_uid(uid),
            self.uid_index(uid) == i,
            self.entry(uid) == self.active_upstairs@[i],
    {
        assert(self.has_uid(uid));
        let k = self.uid_index(uid);
        if k < i {
            assert(self.active_upstairs@[k].upstairs_connection.upstairs_id
                != self.active_upstairs@[i].upstairs_connection.upstairs_id);
        } else if k > i {
            assert(self.active_upstairs@[i].upstairs_connection.upstairs_id
                != self.active_upstairs@[k].upstairs_connection.upstairs_id);
        }
    }

    pub fn new(
        region_def: RegionDefinition,
        lossy: bool,
        return_errors: bool,
        read_only: bool,
        encrypted: bool,
    ) -> (ds: Downstairs)
        ensures
            ds.inv(),
            ds.active_upstairs@.len() == 0,
            ds.region_def == region_def,
            ds.lossy == lossy,
            ds.return_errors == return_errors,
            ds.read_only == read_only,
            ds.encrypted == encrypted,
            ds.address is None,
            ds.repair_address is None,
            ds.dss == (DsCountStat { connections: 0, reads: 0, writes: 0, flushes: 0 }),
    {
        Downstairs {
            region_def,
            lossy,
            return_errors,
            active_upstairs: Vec::new(),
            dss: DsCountStat { connections: 0, reads: 0, writes: 0, flushes: 0 },
            read_only,
            encrypted,
            address: None,
            repair_address: None,
        }
    }

    /// Index of the entry under `uid`, if any.
    fn find_uid(&self, uid: u128) -> (r: Option<usize>)
        requires
            self.uids_unique(),
        ensures
            match r {
                Some(i) => self.has_uid(uid) && i == self.uid_index(uid) && i
                    < self.active_upstairs@.len()
                    && self.active_upstairs@[i as int].upstairs_connection.upstairs_id == uid,
                None => !self.has_uid(uid),
            },
    {
        let n = self.active_upstairs.len();
        let mut i: usize = 0;
        while i < n
            invariant
                self.uids_unique(),
                n == self.active_upstairs@.len(),
                0 <= i <= n,
                forall|k: int|
                    0 <= k < i ==> (#[trigger] self.active_upstairs@[k]).upstairs_connection.upstairs_id
                        != uid,
            decreases n - i,
        {
            if self.active_upstairs[i].upstairs_connection.upstairs_id == uid {
                proof {
                    self.lemma_entry_at(uid, i as int);
                }
                return Some(i);
            }
            i = i + 1;
        }
        None
    }

    /// The gateway to a session's queue: succeeds only when the registered
    /// entry matches `upstairs_connection` exactly. A promotion that changed
    /// the registered connection makes every later access by the old
    /// connection fail here with `UpstairsInactive`.
    fn work_lock(&self, upstairs_connection: UpstairsConnection) -> (r: Result<
        usize,
        CrucibleError,
    >)
        requires
            self.uids_unique(),
        ensures
            match r {
                Ok(i) => self.is_active_spec(upstairs_connection) && i == self.uid_index(
                    upstairs_connection.upstairs_id,
                ) && i < self.active_upstairs@.len()
                    && self.active_upstairs@[i as int].upstairs_connection == upstairs_connection,
                Err(e) => e == CrucibleError::UpstairsInactive && !self.is_active_spec(
                    upstairs_connection,
                ),
            },
    {
        match self.find_uid(upstairs_connection.upstairs_id) {
            None => Err(CrucibleError::UpstairsInactive),
            Some(i) => {
                if self.active_upstairs[i].upstairs_connection == upstairs_connection {
                    Ok(i)
                } else {
                    Err(CrucibleError::UpstairsInactive)
                }
            },
        }
    }

    /// Whether `connection` is the registered owner of its upstairs id.
    pub fn is_active(&self, connection: UpstairsConnection) -> (r: bool)
        requires
            self.uids_unique(),
        ensures
            r == self.is_active_spec(connection),
    {
        match self.work_lock(connection) {
            Ok(_) => true,
            Err(_) => false,
        }
    }

    /// The connections of all registered sessions.
    pub fn active_upstairs(&self) -> (r: Vec<UpstairsConnection>)
        ensures
            r@ == self.active_upstairs@.map_values(|e: ActiveUpstairs| e.upstairs_connection),
    {
        let n = self.active_upstairs.len();
        let mut r: Vec<UpstairsConnection> = Vec::new();
        let mut i: usize = 0;
        while i < n
            invariant
                n == self.active_upstairs@.len(),
                0 <= i <= n,
                r@ == self.active_upstairs@.take(i as int).map_values(
                    |e: ActiveUpstairs| e.upstairs_connection,
                ),
            decreases n - i,
        {
            r.push(self.active_upstairs[i].upstairs_connection);
            proof {
                assert(r@ =~= self.active_upstairs@.take(i + 1).map_values(
                    |e: ActiveUpstairs| e.upstairs_connection,
                ));
            }
            i = i + 1;
        }
        proof {
            assert(self.active_upstairs@.take(n as int) =~= self.active_upstairs@);
        }
        r
    }

    /// Number of jobs resident in `upstairs_connection`'s queue.
    pub fn jobs(&self, upstairs_connection: UpstairsConnection) -> (r: Result<usize, CrucibleError>)
        requires
            self.inv(),
        ensures
            match r {
                Ok(n) => self.is_active_spec(upstairs_connection) && n == self.entry(
                    upstairs_connection.upstairs_id,
                ).work.active@.len(),
                Err(e) => e == CrucibleError::UpstairsInactive && !self.is_active_spec(
                    upstairs_connection,
                ),
            },
    {
        let i = self.work_lock(upstairs_connection)?;
        Ok(self.active_upstairs[i].work.jobs())
    }

    /// The ids of `upstairs_connection`'s pending jobs, ascending.
    pub fn new_work(&self, upstairs_connection: UpstairsConnection) -> (r: Result<
        Vec<u64>,
        CrucibleError,
    >)
        requires
            self.inv(),
        ensures
            match r {
                Ok(ids) => {
                    &&& self.is_active_spec(upstairs_connection)
                    &&& forall|a: int, b: int| 0 <= a < b < ids@.len() ==> ids@[a] < ids@[b]
                    &&& forall|id: u64|
                        #[trigger] ids@.contains(id) == self.entry(
                            upstairs_connection.upstairs_id,
                        ).work.pending(id)
                },
                Err(e) => e == CrucibleError::UpstairsInactive && !self.is_active_spec(
                    upstairs_connection,
                ),
            },
    {
        let i = self.work_lock(upstairs_connection)?;
        Ok(self.active_upstairs[i].work.new_work(upstairs_connection))
    }

    /// The job under `ds_id` in `upstairs_connection`'s queue, if resident.
    pub fn get_job(&self, upstairs_connection: UpstairsConnection, ds_id: u64) -> (r: Result<
        Option<&DownstairsWork>,
        CrucibleError,
    >)
        requires
            self.inv(),
        ensures
            match r {
                Ok(j) => self.is_active_spec(upstairs_connection) && (match j {
                    Some(job) => self.entry(upstairs_connection.upstairs_id).work.contains_id(ds_id)
                        && *job == self.entry(upstairs_connection.upstairs_id).work.job(ds_id),
                    None => !self.entry(upstairs_connection.upstairs_id).work.contains_id(ds_id),
                }),
                Err(e) => e == CrucibleError::UpstairsInactive && !self.is_active_spec(
                    upstairs_connection,
                ),
            },
    {
        let i = self.work_lock(upstairs_connection)?;
        Ok(self.active_upstairs[i].work.get_job(ds_id))
    }

    /// Replacing only the queue of the entry at `i`, with its connection
    /// kept, preserves the invariant and leaves every lookup other than that
    /// entry's queue unchanged.
    proof fn lemma_queue_update_frame(pre: Downstairs, post: Downstairs, i: int)
        requires
            pre.inv(),
            0 <= i < pre.active_upstairs@.len(),
            post.active_upstairs@.len() == pre.active_upstairs@.len(),
            post.active_upstairs@[i].upstairs_connection
                == pre.active_upstairs@[i].upstairs_connection,
            forall|k: int|
                0 <= k < pre.active_upstairs@.len() && k != i ==> post.active_upstairs@[k]
                    == pre.active_upstairs@[k],
            post.read_only == pre.read_only,
            post.active_upstairs@[i].work.wf(),
            post.active_upstairs@[i].work.owned_by(post.active_upstairs@[i].upstairs_connection),
        ensures
            post.inv(),
            forall|uid: u128| #[trigger] post.has_uid(uid) == pre.has_uid(uid),
            forall|uid: u128| pre.has_uid(uid) ==> #[trigger] post.uid_index(uid) == pre.uid_index(
                uid,
            ),
            forall|uid: u128|
                uid != pre.active_upstairs@[i].upstairs_connection.upstairs_id && pre.has_uid(uid)
                    ==> #[trigger] post.entry(uid) == pre.entry(uid),
            forall|c: UpstairsConnection| #[trigger] post.is_active_spec(c) == pre.is_active_spec(
                c,
            ),
            post.has_uid(pre.active_upstairs@[i].upstairs_connection.upstairs_id),
            post.entry(pre.active_upstairs@[i].upstairs_connection.upstairs_id)
                == post.active_upstairs@[i],
    {
        let n = pre.active_upstairs@.len();
        assert(post.uids_unique()) by {
            assert forall|a: int, b: int|
                #![trigger post.active_upstairs@[a], post.active_upstairs@[b]]
                0 <= a < b < n implies post.active_upstairs@[a].upstairs_connection.upstairs_id
                != post.active_upstairs@[b].upstairs_connection.upstairs_id by {
                assert(post.active_upstairs@[a].upstairs_connection
                    == pre.active_upstairs@[a].upstairs_connection);
                assert(post.active_upstairs@[b].upstairs_connection
                    == pre.active_upstairs@[b].upstairs_connection);
            }
        }
        assert forall|k: int| 0 <= k < n implies (#[trigger] post.active_upstairs@[k]).work.wf()
            && post.active_upstairs@[k].work.owned_by(
            post.active_upstairs@[k].upstairs_connection,
        ) by {
            if k != i {
                assert(post.active_upstairs@[k] == pre.active_upstairs@[k]);
            }
        }
        assert forall|uid: u128| #[trigger] post.has_uid(uid) == pre.has_uid(uid) by {
            if pre.has_uid(uid) {
                let k = pre.uid_index(uid);
                assert(post.active_upstairs@[k].upstairs_connection.upstairs_id == uid);
            }
            if post.has_uid(uid) {
                let k = post.uid_index(uid);
                assert(pre.active_upstairs@[k].upstairs_connection.upstairs_id == uid);
            }
        }
        assert forall|uid: u128| pre.has_uid(uid) implies #[trigger] post.uid_index(uid)
            == pre.uid_index(uid) by {
            let k = pre.uid_index(uid);
            pre.lemma_entry_at(uid, k);
            assert(post.active_upstairs@[k].upstairs_connection.upstairs_id == uid);
            post.lemma_entry_at(uid, k);
        }
        assert forall|c: UpstairsConnection| #[trigger] post.is_active_spec(c)
            == pre.is_active_spec(c) by {
            if pre.has_uid(c.upstairs_id) {
                let k = pre.uid_index(c.upstairs_id);
                assert(post.entry(c.upstairs_id).upstairs_connection == pre.entry(
                    c.upstairs_id,
                ).upstairs_connection);
            }
        }
        pre.lemma_entry_at(pre.active_upstairs@[i].upstairs_connection.upstairs_id, i);
        post.lemma_entry_at(pre.active_upstairs@[i].upstairs_connection.upstairs_id, i);
    }

    /// Enqueue one operation for `upstairs_connection`. A write-class
    /// operation on a read-only node is refused here, which makes the queue
    /// the enforcement point; the queue of any other session is untouched.
    pub fn add_work(
        &mut self,
        upstairs_connection: UpstairsConnection,
        ds_id: u64,
        work: IOop,
    ) -> (r: Result<(), CrucibleError>)
        requires
            old(self).inv(),
        ensures
            final(self).inv(),
            match r {
                Ok(()) => {
                    &&& !(old(self).read_only && work.spec_is_write())
                    &&& old(self).is_active_spec(upstairs_connection)
                    &&& add_rel(
                        old(self).entry(upstairs_connection.upstairs_id).work,
                        final(self).entry(upstairs_connection.upstairs_id).work,
                        ds_id,
                        (DownstairsWork {
                            upstairs_connection,
                            ds_id,
                            work,
                            state: WorkState::New,
                        }),
                    )
                    &&& forall|uid: u128|
                        #[trigger] final(self).has_uid(uid) == old(self).has_uid(uid)
                    &&& forall|uid: u128|
                        uid != upstairs_connection.upstairs_id && old(self).has_uid(uid)
                            ==> #[trigger] final(self).entry(uid) == old(self).entry(uid)
                    &&& forall|c: UpstairsConnection|
                        #[trigger] final(self).is_active_spec(c) == old(self).is_active_spec(c)
                    &&& final(self).entry(upstairs_connection.upstairs_id).upstairs_connection
                        == upstairs_connection
                },
                Err(e) => {
                    &&& *final(self) == *old(self)
                    &&& (e == CrucibleError::ModifyingReadOnlyRegion || e
                        == CrucibleError::UpstairsInactive)
                    &&& (e == CrucibleError::ModifyingReadOnlyRegion <==> old(self).read_only
                        && work.spec_is_write())
                    &&& (e == CrucibleError::UpstairsInactive <==> !(old(self).read_only
                        && work.spec_is_write()) && !old(self).is_active_spec(upstairs_connection))
                },
            },
    {
        if self.read_only && work.is_write() {
            return Err(CrucibleError::ModifyingReadOnlyRegion);
        }
        let ghost pre = *self;
        let i = self.work_lock(upstairs_connection)?;
        let dsw = DownstairsWork { upstairs_connection, ds_id, work, state: WorkState::New };
        let ghost dsw_g = dsw;
        let entry = &mut self.active_upstairs[i];
        proof {
            assert(entry.work.wf());
        }
        entry.work.add_work(ds_id, dsw);
        proof {
            assert(self.active_upstairs@ == pre.active_upstairs@.update(
                i as int,
                self.active_upstairs@[i as int],
            ));
            assert(self.active_upstairs@[i as int].work.owned_by(upstairs_connection)) by {
                let w = self.active_upstairs@[i as int].work;
                let w0 = pre.active_upstairs@[i as int].work;
                assert forall|k: int|
                    0 <= k < w.active@.len() implies #[trigger] w.active@[k].upstairs_connection
                    == upstairs_connection by {
                    let id = w.active@[k].ds_id;
                    w.lemma_job_at(id, k);
                    if id == ds_id {
                        assert(w.job(id) == dsw_g);
                    } else {
                        assert(w.contains_id(id) == w0.contains_id(id));
                        assert(w.job(id) == w0.job(id));
                        let t = w0.job_index(id);
                        assert(w0.active@[t].upstairs_connection == upstairs_connection);
                    }
                }
            }
            Self::lemma_queue_update_frame(pre, *self, i as int);
        }
        Ok(())
    }

    /// Try to start the job under `ds_id` in `upstairs_connection`'s queue,
    /// as `Work::in_progress` does. The id of a started job is returned.
    pub fn in_progress(&mut self, upstairs_connection: UpstairsConnection, ds_id: u64) -> (r:
        Result<Option<u64>, CrucibleError>)
        requires
            old(self).inv(),
        ensures
            final(self).inv(),
            match r {
                Ok(started) => {
                    &&& old(self).is_active_spec(upstairs_connection)
                    &&& start_rel(
                        old(self).entry(upstairs_connection.upstairs_id).work,
                        final(self).entry(upstairs_connection.upstairs_id).work,
                        ds_id,
                        match started {
                            Some(id) => Some((id, upstairs_connection)),
                            None => None,
                        },
                    )
                    &&& forall|uid: u128|
                        #[trigger] final(self).has_uid(uid) == old(self).has_uid(uid)
                    &&& forall|uid: u128|
                        uid != upstairs_connection.upstairs_id && old(self).has_uid(uid)
                            ==> #[trigger] final(self).entry(uid) == old(self).entry(uid)
                    &&& forall|c: UpstairsConnection|
                        #[trigger] final(self).is_active_spec(c) == old(self).is_active_spec(c)
                },
                Err(e) => e == CrucibleError::UpstairsInactive && !old(self).is_active_spec(
                    upstairs_connection,
                ) && *final(self) == *old(self),
            },
    {
        let ghost pre = *self;
        let i = self.work_lock(upstairs_connection)?;
        let entry = &mut self.active_upstairs[i];
        let started = entry.work.in_progress(ds_id);
        proof {
            assert(self.active_upstairs@ == pre.active_upstairs@.update(
                i as int,
                self.active_upstairs@[i as int],
            ));
            assert(self.active_upstairs@[i as int].work.owned_by(upstairs_connection)) by {
                let w = self.active_upstairs@[i as int].work;
                let w0 = pre.active_upstairs@[i as int].work;
                assert forall|k: int|
                    0 <= k < w.active@.len() implies #[trigger] w.active@[k].upstairs_connection
                    == upstairs_connection by {
                    let id = w.active@[k].ds_id;
                    w.lemma_job_at(id, k);
                    assert(w0.contains_id(id));
                    let t = w0.job_index(id);
                    assert(w0.active@[t].upstairs_connection == upstairs_connection);
                    if id != ds_id {
                        assert(w.job(id) == w0.job(id));
                    } else {
                        assert(w.job(id).upstairs_connection == w0.job(
                            id,
                        ).upstairs_connection) by {
                            if w0.pending(id) {
                            } else {
                            }
                        }
                    }
                }
            }
            Self::lemma_queue_update_frame(pre, *self, i as int);
        }
        match started {
            Some((job_id, _owner)) => Ok(Some(job_id)),
            None => Ok(None),
        }
    }

    /// Hand out the job under `job_id` for execution, under the same terms
    /// as `Work::get_ready_job`.
    pub fn get_ready_job(&self, upstairs_connection: UpstairsConnection, job_id: u64) -> (r: Result<
        Option<&DownstairsWork>,
        CrucibleError,
    >)
        requires
            self.inv(),
            self.is_active_spec(upstairs_connection) && self.entry(
                upstairs_connection.upstairs_id,
            ).work.contains_id(job_id) ==> self.entry(upstairs_connection.upstairs_id).work.job(
                job_id,
            ).state == WorkState::InProgress && self.entry(
                upstairs_connection.upstairs_id,
            ).work.deps_satisfied(
                self.entry(upstairs_connection.upstairs_id).work.job(job_id).work.spec_deps(),
            ),
        ensures
            match r {
                Ok(j) => self.is_active_spec(upstairs_connection) && (match j {
                    Some(job) => self.entry(upstairs_connection.upstairs_id).work.contains_id(
                        job_id,
                    ) && *job == self.entry(upstairs_connection.upstairs_id).work.job(job_id),
                    None => !self.entry(upstairs_connection.upstairs_id).work.contains_id(job_id),
                }),
                Err(e) => e == CrucibleError::UpstairsInactive && !self.is_active_spec(
                    upstairs_connection,
                ),
            },
    {
        let i = self.work_lock(upstairs_connection)?;
        Ok(self.active_upstairs[i].work.get_ready_job(job_id))
    }

    /// What the worker reports instead of touching the region: an injected
    /// failure when the test flag asks for one, or `UpstairsInactive` when
    /// the owner lost its session. `None` means the region operation runs.
    pub fn io_result_override(&self, owner: UpstairsConnection, inject_error: bool) -> (r: Option<
        CrucibleError,
    >)
        requires
            self.inv(),
        ensures
            r == (if self.return_errors && inject_error {
                Some(CrucibleError::GenericError)
            } else if !self.is_active_spec(owner) {
                Some(CrucibleError::UpstairsInactive)
            } else {
                None::<CrucibleError>
            }),
    {
        if self.return_errors && inject_error {
            Some(CrucibleError::GenericError)
        } else if !self.is_active(owner) {
            Some(CrucibleError::UpstairsInactive)
        } else {
            None
        }
    }

    /// Retire the job acknowledged by `m` from `upstairs_connection`'s
    /// queue. An id the queue no longer holds, which happens when the same
    /// upstairs reconnected and was re-promoted, is a no-op.
    pub fn complete_work(
        &mut self,
        upstairs_connection: UpstairsConnection,
        ds_id: u64,
        m: Message,
    ) -> (r: Result<(), CrucibleError>)
        requires
            old(self).inv(),
        ensures
            final(self).inv(),
            match r {
                Ok(()) => {
                    &&& old(self).is_active_spec(upstairs_connection)
                    &&& complete_rel(
                        old(self).entry(upstairs_connection.upstairs_id).work,
                        final(self).entry(upstairs_connection.upstairs_id).work,
                        ds_id,
                        m.is_flush_ack(),
                    )
                    &&& forall|uid: u128|
                        #[trigger] final(self).has_uid(uid) == old(self).has_uid(uid)
                    &&& forall|uid: u128|
                        uid != upstairs_connection.upstairs_id && old(self).has_uid(uid)
                            ==> #[trigger] final(self).entry(uid) == old(self).entry(uid)
                    &&& forall|c: UpstairsConnection|
                        #[trigger] final(self).is_active_spec(c) == old(self).is_active_spec(c)
                },
                Err(e) => e == CrucibleError::UpstairsInactive && !old(self).is_active_spec(
                    upstairs_connection,
                ) && *final(self) == *old(self),
            },
    {
        let ghost pre = *self;
        let i = self.work_lock(upstairs_connection)?;
        let is_flush = match m {
            Message::FlushAck { .. } => true,
            _ => false,
        };
        let entry = &mut self.active_upstairs[i];
        entry.work.complete(ds_id, is_flush);
        proof {
            assert(self.active_upstairs@ == pre.active_upstairs@.update(
                i as int,
                self.active_upstairs@[i as int],
            ));
            assert(self.active_upstairs@[i as int].work.owned_by(upstairs_connection)) by {
                let w = self.active_upstairs@[i as int].work;
                let w0 = pre.active_upstairs@[i as int].work;
                assert forall|k: int|
                    0 <= k < w.active@.len() implies #[trigger] w.active@[k].upstairs_connection
                    == upstairs_connection by {
                    let id = w.active@[k].ds_id;
                    w.lemma_job_at(id, k);
                    if w0.contains_id(ds_id) {
                        assert(id != ds_id);
                        assert(w.job(id) == w0.job(id));
                    }
                    let t = w0.job_index(id);
                    assert(w0.active@[t].upstairs_connection == upstairs_connection);
                }
            }
            Self::lemma_queue_update_frame(pre, *self, i as int);
        }
        Ok(())
    }

    /// Record the handshake's starting flush horizon for this session.
    pub fn set_last_flush(&mut self, upstairs_connection: UpstairsConnection, n: u64) -> (r: Result<
        (),
        CrucibleError,
    >)
        requires
            old(self).inv(),
        ensures
            final(self).inv(),
            match r {
                Ok(()) => {
                    &&& old(self).is_active_spec(upstairs_connection)
                    &&& final(self).entry(upstairs_connection.upstairs_id).work.last_flush == n
                    &&& final(self).entry(upstairs_connection.upstairs_id).work.active@ == old(
                        self,
                    ).entry(upstairs_connection.upstairs_id).work.active@
                    &&& final(self).entry(upstairs_connection.upstairs_id).work.completed@ == old(
                        self,
                    ).entry(upstairs_connection.upstairs_id).work.completed@
                    &&& forall|uid: u128|
                        #[trigger] final(self).has_uid(uid) == old(self).has_uid(uid)
                    &&& forall|uid: u128|
                        uid != upstairs_connection.upstairs_id && old(self).has_uid(uid)
                            ==> #[trigger] final(self).entry(uid) == old(self).entry(uid)
                    &&& forall|c: UpstairsConnection|
                        #[trigger] final(self).is_active_spec(c) == old(self).is_active_spec(c)
                },
                Err(e) => e == CrucibleError::UpstairsInactive && !old(self).is_active_spec(
                    upstairs_connection,
                ) && *final(self) == *old(self),
            },
    {
        let ghost pre = *self;
        let i = self.work_lock(upstairs_connection)?;
        let entry = &mut self.active_upstairs[i];
        entry.work.last_flush = n;
        proof {
            assert(self.active_upstairs@ == pre.active_upstairs@.update(
                i as int,
                self.active_upstairs@[i as int],
            ));
            let w = self.active_upstairs@[i as int].work;
            let w0 = pre.active_upstairs@[i as int].work;
            assert(w.active@ == w0.active@);
            assert(w.wf()) by {
                assert forall|a: int, b: int|
                    #![trigger w.active@[a], w.active@[b]]
                    0 <= a < b < w.active@.len() implies w.active@[a].ds_id < w.active@[b].ds_id by {
                    assert(w0.active@[a].ds_id < w0.active@[b].ds_id);
                }
            }
            Self::lemma_queue_update_frame(pre, *self, i as int);
        }
        Ok(())
    }

    /// Bump the counter matching the acknowledgement being sent. Only the
    /// counters change.
    pub fn complete_work_stat(&mut self, m: &Message)
        ensures
            *final(self) == (Downstairs { dss: final(self).dss, ..*old(self) }),
            final(self).dss == (match m {
                Message::FlushAck { .. } => DsCountStat {
                    flushes: bump(old(self).dss.flushes),
                    ..old(self).dss
                },
                Message::WriteAck { .. } => DsCountStat {
                    writes: bump(old(self).dss.writes),
                    ..old(self).dss
                },
                Message::WriteUnwrittenAck { .. } => DsCountStat {
                    writes: bump(old(self).dss.writes),
                    ..old(self).dss
                },
                Message::ReadResponse { .. } => DsCountStat {
                    reads: bump(old(self).dss.reads),
                    ..old(self).dss
                },
                _ => old(self).dss,
            }),
    {
        match m {
            Message::FlushAck { .. } => {
                if self.dss.flushes < u64::MAX {
                    self.dss.flushes = self.dss.flushes + 1;
                }
            },
            Message::WriteAck { .. } => {
                if self.dss.writes < u64::MAX {
                    self.dss.writes = self.dss.writes + 1;
                }
            },
            Message::WriteUnwrittenAck { .. } => {
                if self.dss.writes < u64::MAX {
                    self.dss.writes = self.dss.writes + 1;
                }
            },
            Message::ReadResponse { .. } => {
                if self.dss.reads < u64::MAX {
                    self.dss.reads = self.dss.reads + 1;
                }
            },
            _ => {},
        }
    }

    /// Count one accepted connection.
    pub fn add_connection_stat(&mut self)
        ensures
            *final(self) == (Downstairs { dss: final(self).dss, ..*old(self) }),
            final(self).dss == (DsCountStat {
                connections: bump(old(self).dss.connections),
                ..old(self).dss
            }),
    {
        if self.dss.connections < u64::MAX {
            self.dss.connections = self.dss.connections + 1;
        }
    }
}

/// Why a promotion is refused, if it is: on a read-write node an incumbent
/// fences newcomers by generation. A generation below the incumbent's is
/// stale; the incumbent's own generation is accepted only from the identical
/// identity triple. Read-only promotions are never refused.
pub open spec fn promote_refusal(pre: Downstairs, conn: UpstairsConnection) -> Option<
    CrucibleError,
> {
    if pre.read_only || pre.active_upstairs@.len() == 0 {
        None
    } else {
        let cur = pre.active_upstairs@[0].upstairs_connection;
        if conn.gen < cur.gen {
            Some(CrucibleError::GenerationNumberTooLow)
        } else if conn.gen == cur.gen && conn != cur {
            Some(CrucibleError::ActiveSessionMismatch)
        } else {
            None
        }
    }
}

/// How a successful promotion takes the registry from `pre` to `post`:
/// `conn` owns a fresh queue and the channel `tx`; on a read-write node it
/// is the only session left, and on a read-only node exactly the sessions
/// under other upstairs ids survive unchanged.
pub open spec fn promote_ok_rel(
    pre: Downstairs,
    post: Downstairs,
    conn: UpstairsConnection,
    tx: TerminateSender,
) -> bool {
    &&& post.inv()
    &&& post.is_active_spec(conn)
    &&& post.entry(conn.upstairs_id).work.active@.len() == 0
    &&& post.entry(conn.upstairs_id).work.last_flush == 0
    &&& post.entry(conn.upstairs_id).work.completed@.len() == 0
    &&& post.entry(conn.upstairs_id).terminate_sender == tx
    &&& (!pre.read_only ==> {
        &&& post.active_upstairs@.len() == 1
        &&& forall|c: UpstairsConnection| #[trigger] post.is_active_spec(c) == (c == conn)
    })
    &&& (pre.read_only ==> {
        &&& post.active_upstairs@.len() == pre.active_upstairs@.len() + (
        if pre.has_uid(conn.upstairs_id) {
            0int
        } else {
            1int
        })
        &&& forall|uid: u128|
            uid != conn.upstairs_id ==> (#[trigger] post.has_uid(uid) == pre.has_uid(uid))
        &&& forall|uid: u128|
            uid != conn.upstairs_id && pre.has_uid(uid) ==> #[trigger] post.entry(uid) == pre.entry(
                uid,
            )
        &&& forall|c: UpstairsConnection|
            #[trigger] post.is_active_spec(c) == (if c.upstairs_id == conn.upstairs_id {
                c == conn
            } else {
                pre.is_active_spec(c)
            })
    })
    &&& post.region_def == pre.region_def
    &&& post.read_only == pre.read_only
    &&& post.encrypted == pre.encrypted
    &&& post.lossy == pre.lossy
    &&& post.return_errors == pre.return_errors
    &&& post.dss == pre.dss
    &&& post.address == pre.address
    &&& post.repair_address == pre.repair_address
}

impl Downstairs {
    /// Promote `conn` to active ownership, storing `tx` as its eviction
    /// channel. On a read-write node an incumbent with a lower generation is
    /// evicted (fencing, stated in `promote_refusal`); on a read-only node
    /// only a session under the same upstairs id is evicted. Each evicted
    /// session is signalled with `conn` on its own channel, best-effort, and
    /// its queued work is discarded. On success the caller re-opens any
    /// closed extents of the region on a read-write node.
    pub fn promote_to_active(&mut self, conn: UpstairsConnection, tx: TerminateSender) -> (r:
        Result<(), CrucibleError>)
        requires
            old(self).inv(),
        ensures
            match r {
                Ok(()) => promote_refusal(*old(self), conn) is None && promote_ok_rel(
                    *old(self),
                    *final(self),
                    conn,
                    tx,
                ),
                Err(e) => promote_refusal(*old(self), conn) == Some(e) && *final(self) == *old(
                    self,
                ),
            },
    {
        let ghost pre = *self;
        if self.read_only {
            // Multiple read-only sessions coexist, but at most one per
            // upstairs id: an incumbent under the same id is evicted.
            match self.find_uid(conn.upstairs_id) {
                Some(i) => {
                    send_terminate(&self.active_upstairs[i].terminate_sender, conn);
                    let fresh = ActiveUpstairs {
                        upstairs_connection: conn,
                        work: Work::new(),
                        terminate_sender: tx,
                    };
                    self.active_upstairs[i] = fresh;
                    proof {
                        Self::lemma_promote_replace(pre, *self, conn, i as int);
                    }
                    Ok(())
                },
                None => {
                    let fresh = ActiveUpstairs {
                        upstairs_connection: conn,
                        work: Work::new(),
                        terminate_sender: tx,
                    };
                    self.active_upstairs.push(fresh);
                    proof {
                        Self::lemma_promote_push(pre, *self, conn);
                    }
                    Ok(())
                },
            }
        } else {
            // One read-write owner at a time; generation numbers fence.
            if self.active_upstairs.len() == 0 {
                let fresh = ActiveUpstairs {
                    upstairs_connection: conn,
                    work: Work::new(),
                    terminate_sender: tx,
                };
                self.active_upstairs.push(fresh);
                proof {
                    Self::lemma_promote_push(pre, *self, conn);
                }
                Ok(())
            } else {
                let cur = self.active_upstairs[0].upstairs_connection;
                if conn.gen < cur.gen {
                    return Err(CrucibleError::GenerationNumberTooLow);
                }
                if conn.gen == cur.gen && !(conn == cur) {
                    return Err(CrucibleError::ActiveSessionMismatch);
                }
                send_terminate(&self.active_upstairs[0].terminate_sender, conn);
                let fresh = ActiveUpstairs {
                    upstairs_connection: conn,
                    work: Work::new(),
                    terminate_sender: tx,
                };
                self.active_upstairs[0] = fresh;
                proof {
                    assert(self.active_upstairs@.len() == 1);
                    self.lemma_entry_at(conn.upstairs_id, 0);
                    assert forall|c: UpstairsConnection| #[trigger] self.is_active_spec(c) == (c
                        == conn) by {
                        if self.is_active_spec(c) {
                            let k = self.uid_index(c.upstairs_id);
                            assert(k == 0);
                        }
                    }
                }
                Ok(())
            }
        }
    }

    /// Replacing the entry at `i` with a fresh one under the same upstairs
    /// id realizes a read-only (or same-id) takeover.
    proof fn lemma_promote_replace(pre: Downstairs, post: Downstairs, conn: UpstairsConnection, i:
        int)
        requires
            pre.inv(),
            0 <= i < pre.active_upstairs@.len(),
            pre.active_upstairs@[i].upstairs_connection.upstairs_id == conn.upstairs_id,
            post.active_upstairs@.len() == pre.active_upstairs@.len(),
            post.active_upstairs@[i].upstairs_connection == conn,
            forall|k: int|
                0 <= k < pre.active_upstairs@.len() && k != i ==> post.active_upstairs@[k]
                    == pre.active_upstairs@[k],
            post.active_upstairs@[i].work.wf(),
            post.active_upstairs@[i].work.active@.len() == 0,
            post.read_only == pre.read_only,
        ensures
            post.inv(),
            post.is_active_spec(conn),
            post.has_uid(conn.upstairs_id),
            post.entry(conn.upstairs_id) == post.active_upstairs@[i],
            forall|uid: u128|
                uid != conn.upstairs_id ==> (#[trigger] post.has_uid(uid) == pre.has_uid(uid)),
            forall|uid: u128|
                uid != conn.upstairs_id && pre.has_uid(uid) ==> #[trigger] post.entry(uid)
                    == pre.entry(uid),
            forall|c: UpstairsConnection|
                #[trigger] post.is_active_spec(c) == (if c.upstairs_id == conn.upstairs_id {
                    c == conn
                } else {
                    pre.is_active_spec(c)
                }),
    {
        let n = pre.active_upstairs@.len();
        assert(post.uids_unique()) by {
            assert forall|a: int, b: int|
                #![trigger post.active_upstairs@[a], post.active_upstairs@[b]]
                0 <= a < b < n implies post.active_upstairs@[a].upstairs_connection.upstairs_id
                != post.active_upstairs@[b].upstairs_connection.upstairs_id by {
                assert(post.active_upstairs@[a].upstairs_connection.upstairs_id
                    == pre.active_upstairs@[a].upstairs_connection.upstairs_id);
                assert(post.active_upstairs@[b].upstairs_connection.upstairs_id
                    == pre.active_upstairs@[b].upstairs_connection.upstairs_id);
            }
        }
        assert forall|k: int| 0 <= k < n implies (#[trigger] post.active_upstairs@[k]).work.wf()
            && post.active_upstairs@[k].work.owned_by(
            post.active_upstairs@[k].upstairs_connection,
        ) by {
            if k != i {
                assert(post.active_upstairs@[k] == pre.active_upstairs@[k]);
            }
        }
        post.lemma_entry_at(conn.upstairs_id, i);
        assert forall|uid: u128| uid != conn.upstairs_id implies (#[trigger] post.has_uid(uid)
            == pre.has_uid(uid)) by {
            if pre.has_uid(uid) {
                let k = pre.uid_index(uid);
                assert(k != i);
                assert(post.active_upstairs@[k].upstairs_connection.upstairs_id == uid);
            }
            if post.has_uid(uid) {
                let k = post.uid_index(uid);
                assert(k != i);
                assert(pre.active_upstairs@[k].upstairs_connection.upstairs_id == uid);
            }
        }
        assert forall|uid: u128| uid != conn.upstairs_id && pre.has_uid(uid) implies #[trigger] post
            .entry(uid) == pre.entry(uid) by {
            let k = pre.uid_index(uid);
            pre.lemma_entry_at(uid, k);
            assert(k != i);
            post.lemma_entry_at(uid, k);
        }
        assert forall|c: UpstairsConnection| #[trigger] post.is_active_spec(c) == (
        if c.upstairs_id == conn.upstairs_id {
            c == conn
        } else {
            pre.is_active_spec(c)
        }) by {
            if c.upstairs_id == conn.upstairs_id {
                assert(post.entry(c.upstairs_id) == post.active_upstairs@[i]);
            } else {
                if pre.has_uid(c.upstairs_id) {
                    assert(post.entry(c.upstairs_id) == pre.entry(c.upstairs_id));
                }
            }
        }
    }

    /// Appending a fresh entry under an unregistered upstairs id realizes a
    /// first promotion.
    proof fn lemma_promote_push(pre: Downstairs, post: Downstairs, conn: UpstairsConnection)
        requires
            pre.inv(),
            !pre.has_uid(conn.upstairs_id),
            post.active_upstairs@.len() == pre.active_upstairs@.len() + 1,
            forall|k: int|
                0 <= k < pre.active_upstairs@.len() ==> post.active_upstairs@[k]
                    == pre.active_upstairs@[k],
            post.active_upstairs@.last().upstairs_connection == conn,
            post.active_upstairs@.last().work.wf(),
            post.active_upstairs@.last().work.active@.len() == 0,
            post.read_only == pre.read_only,
            !pre.read_only ==> pre.active_upstairs@.len() == 0,
        ensures
            post.inv(),
            post.is_active_spec(conn),
            post.has_uid(conn.upstairs_id),
            post.entry(conn.upstairs_id) == post.active_upstairs@.last(),
            forall|uid: u128|
                uid != conn.upstairs_id ==> (#[trigger] post.has_uid(uid) == pre.has_uid(uid)),
            forall|uid: u128|
                uid != conn.upstairs_id && pre.has_uid(uid) ==> #[trigger] post.entry(uid)
                    == pre.entry(uid),
            forall|c: UpstairsConnection|
                #[trigger] post.is_active_spec(c) == (if c.upstairs_id == conn.upstairs_id {
                    c == conn
                } else {
                    pre.is_active_spec(c)
                }),
    {
        let n = pre.active_upstairs@.len();
        assert(post.uids_unique()) by {
            assert forall|a: int, b: int|
                #![trigger post.active_upstairs@[a], post.active_upstairs@[b]]
                0 <= a < b < n + 1 implies post.active_upstairs@[a].upstairs_connection.upstairs_id
                != post.active_upstairs@[b].upstairs_connection.upstairs_id by {
                if b == n {
                    assert(post.active_upstairs@[a] == pre.active_upstairs@[a]);
                    if pre.active_upstairs@[a].upstairs_connection.upstairs_id
                        == conn.upstairs_id {
                        assert(pre.has_uid(conn.upstairs_id));
                    }
                } else {
                    assert(post.active_upstairs@[a] == pre.active_upstairs@[a]);
                    assert(post.active_upstairs@[b] == pre.active_upstairs@[b]);
                }
            }
        }
        assert forall|k: int| 0 <= k < n + 1 implies (#[trigger] post.active_upstairs@[k]).work.wf()
            && post.active_upstairs@[k].work.owned_by(
            post.active_upstairs@[k].upstairs_connection,
        ) by {
            if k < n {
                assert(post.active_upstairs@[k] == pre.active_upstairs@[k]);
            } else {
                assert(post.active_upstairs@[k] == post.active_upstairs@.last());
            }
        }
        post.lemma_entry_at(conn.upstairs_id, n as int);
        assert forall|uid: u128| uid != conn.upstairs_id implies (#[trigger] post.has_uid(uid)
            == pre.has_uid(uid)) by {
            if pre.has_uid(uid) {
                let k = pre.uid_index(uid);
                assert(post.active_upstairs@[k].upstairs_connection.upstairs_id == uid);
            }
            if post.has_uid(uid) {
                let k = post.uid_index(uid);
                assert(k < n);
                assert(pre.active_upstairs@[k].upstairs_connection.upstairs_id == uid);
            }
        }
        assert forall|uid: u128| uid != conn.upstairs_id && pre.has_uid(uid) implies #[trigger] post
            .entry(uid) == pre.entry(uid) by {
            let k = pre.uid_index(uid);
            pre.lemma_entry_at(uid, k);
            post.lemma_entry_at(uid, k);
        }
        assert forall|c: UpstairsConnection| #[trigger] post.is_active_spec(c) == (
        if c.upstairs_id == conn.upstairs_id {
            c == conn
        } else {
            pre.is_active_spec(c)
        }) by {
            if c.upstairs_id == conn.upstairs_id {
                assert(post.entry(c.upstairs_id) == post.active_upstairs@.last());
            } else {
                if pre.has_uid(c.upstairs_id) {
                    assert(post.entry(c.upstairs_id) == pre.entry(c.upstairs_id));
                }
            }
        }
    }

    /// Drop `upstairs_connection`'s registration on disconnect, discarding
    /// its queued work. Fails when it is not the registered owner.
    pub fn clear_active(&mut self, upstairs_connection: UpstairsConnection) -> (r: Result<
        (),
        CrucibleError,
    >)
        requires
            old(self).inv(),
        ensures
            final(self).inv(),
            match r {
                Ok(()) => {
                    &&& old(self).is_active_spec(upstairs_connection)
                    &&& !final(self).has_uid(upstairs_connection.upstairs_id)
                    &&& final(self).active_upstairs@.len() == old(self).active_upstairs@.len() - 1
                    &&& forall|uid: u128|
                        uid != upstairs_connection.upstairs_id ==> (#[trigger] final(self).has_uid(
                            uid,
                        ) == old(self).has_uid(uid))
                    &&& forall|uid: u128|
                        uid != upstairs_connection.upstairs_id && old(self).has_uid(uid)
                            ==> #[trigger] final(self).entry(uid) == old(self).entry(uid)
                },
                Err(e) => e == CrucibleError::UpstairsInactive && !old(self).is_active_spec(
                    upstairs_connection,
                ) && *final(self) == *old(self),
            },
    {
        let ghost pre = *self;
        let i = self.work_lock(upstairs_connection)?;
        self.active_upstairs.remove(i);
        proof {
            let n = pre.active_upstairs@.len();
            let s = self.active_upstairs@;
            let p = pre.active_upstairs@;
            assert(self.uids_unique()) by {
                assert forall|a: int, b: int|
                    #![trigger s[a], s[b]]
                    0 <= a < b < s.len() implies s[a].upstairs_connection.upstairs_id
                    != s[b].upstairs_connection.upstairs_id by {
                    if b < i {
                    } else if a < i {
                        assert(s[b] == p[b + 1]);
                    } else {
                        assert(s[a] == p[a + 1] && s[b] == p[b + 1]);
                    }
                }
            }
            assert forall|k: int| 0 <= k < s.len() implies (#[trigger] s[k]).work.wf()
                && s[k].work.owned_by(s[k].upstairs_connection) by {
                if k < i {
                    assert(s[k] == p[k]);
                } else {
                    assert(s[k] == p[k + 1]);
                }
            }
            if self.has_uid(upstairs_connection.upstairs_id) {
                let k = self.uid_index(upstairs_connection.upstairs_id);
                if k < i {
                    pre.lemma_entry_at(upstairs_connection.upstairs_id, k);
                } else {
                    pre.lemma_entry_at(upstairs_connection.upstairs_id, k + 1);
                }
                pre.lemma_entry_at(upstairs_connection.upstairs_id, i as int);
                assert(false);
            }
            assert forall|uid: u128| uid != upstairs_connection.upstairs_id implies (
            #[trigger] self.has_uid(uid) == pre.has_uid(uid)) by {
                if self.has_uid(uid) {
                    let k = self.uid_index(uid);
                    if k < i {
                        assert(p[k].upstairs_connection.upstairs_id == uid);
                    } else {
                        assert(p[k + 1].upstairs_connection.upstairs_id == uid);
                    }
                }
                if pre.has_uid(uid) {
                    let k = pre.uid_index(uid);
                    assert(k != i);
                    if k < i {
                        assert(s[k].upstairs_connection.upstairs_id == uid);
                    } else {
                        assert(s[k - 1].upstairs_connection.upstairs_id == uid);
                    }
                }
            }
            assert forall|uid: u128|
                uid != upstairs_connection.upstairs_id && pre.has_uid(uid) implies #[trigger] self
                .entry(uid) == pre.entry(uid) by {
                let k = pre.uid_index(uid);
                pre.lemma_entry_at(uid, k);
                assert(k != i);
                if k < i {
                    self.lemma_entry_at(uid, k);
                } else {
                    self.lemma_entry_at(uid, k - 1);
                }
            }
        }
        Ok(())
    }
}

/// At most one read-write session, and no two sessions under one upstairs
/// id: both bounds hold in every reachable registry state, because every
/// operation preserves the invariant that states them.
pub proof fn lemma_active_session_limits(ds: Downstairs)
    requires
        ds.inv(),
    ensures
        !ds.read_only ==> ds.active_upstairs@.len() <= 1,
        forall|i: int, j: int|
            #![trigger ds.active_upstairs@[i], ds.active_upstairs@[j]]
            0 <= i < j < ds.active_upstairs@.len()
                ==> ds.active_upstairs@[i].upstairs_connection.upstairs_id
                != ds.active_upstairs@[j].upstairs_connection.upstairs_id,
{
}

/// Eviction causality: once a promotion of `conn` has replaced `cur`, the
/// registry no longer recognises `cur`, so every queue access by `cur` —
/// all of which pass through the work-lock gateway — is refused with
/// `UpstairsInactive`.
pub proof fn lemma_eviction_causality(
    pre: Downstairs,
    post: Downstairs,
    conn: UpstairsConnection,
    cur: UpstairsConnection,
    tx: TerminateSender,
)
    requires
        pre.inv(),
        promote_ok_rel(pre, post, conn, tx),
        pre.is_active_spec(cur),
        cur != conn,
        pre.read_only ==> cur.upstairs_id == conn.upstairs_id,
    ensures
        !post.is_active_spec(cur),
{
}

/// Queue isolation: enqueueing for `c1` leaves the queue of every session
/// registered under a different upstairs id untouched, so jobs submitted to
/// two concurrently active sessions under the same numeric id never
/// interact.
pub proof fn lemma_queue_isolation(
    pre: Downstairs,
    post: Downstairs,
    c1: UpstairsConnection,
    c2: UpstairsConnection,
)
    requires
        pre.inv(),
        c1.upstairs_id != c2.upstairs_id,
        pre.is_active_spec(c2),
        forall|uid: u128| #[trigger] post.has_uid(uid) == pre.has_uid(uid),
        forall|uid: u128|
            uid != c1.upstairs_id && pre.has_uid(uid) ==> #[trigger] post.entry(uid) == pre.entry(
                uid,
            ),
        forall|c: UpstairsConnection| #[trigger] post.is_active_spec(c) == pre.is_active_spec(c),
    ensures
        post.is_active_spec(c2),
        post.entry(c2.upstairs_id) == pre.entry(c2.upstairs_id),
{
}

/// The acknowledgement for a finished read: the job's identity with the
/// region's responses or the error that stood in for them.
pub fn read_ack(job: &DownstairsWork, responses: Result<Vec<ReadResponse>, CrucibleError>) -> (m:
    Message)
    requires
        job.work is Read,
    ensures
        m == (Message::ReadResponse {
            upstairs_id: job.upstairs_connection.upstairs_id,
            session_id: job.upstairs_connection.session_id,
            job_id: job.ds_id,
            responses,
        }),
{
    Message::ReadResponse {
        upstairs_id: job.upstairs_connection.upstairs_id,
        session_id: job.upstairs_connection.session_id,
        job_id: job.ds_id,
        responses,
    }
}

/// The acknowledgement for a finished write.
pub fn write_ack(job: &DownstairsWork, result: Result<(), CrucibleError>) -> (m: Message)
    requires
        job.work is Write,
    ensures
        m == (Message::WriteAck {
            upstairs_id: job.upstairs_connection.upstairs_id,
            session_id: job.upstairs_connection.session_id,
            job_id: job.ds_id,
            result,
        }),
{
    Message::WriteAck {
        upstairs_id: job.upstairs_connection.upstairs_id,
        session_id: job.upstairs_connection.session_id,
        job_id: job.ds_id,
        result,
    }
}

/// The acknowledgement for a finished write-unwritten.
pub fn write_unwritten_ack(job: &DownstairsWork, result: Result<(), CrucibleError>) -> (m: Message)
    requires
        job.work is WriteUnwritten,
    ensures
        m == (Message::WriteUnwrittenAck {
            upstairs_id: job.upstairs_connection.upstairs_id,
            session_id: job.upstairs_connection.session_id,
            job_id: job.ds_id,
            result,
        }),
{
    Message::WriteUnwrittenAck {
        upstairs_id: job.upstairs_connection.upstairs_id,
        session_id: job.upstairs_connection.session_id,
        job_id: job.ds_id,
        result,
    }
}

/// The acknowledgement for a finished flush.
pub fn flush_ack(job: &DownstairsWork, result: Result<(), CrucibleError>) -> (m: Message)
    requires
        job.work is Flush,
    ensures
        m == (Message::FlushAck {
            upstairs_id: job.upstairs_connection.upstairs_id,
            session_id: job.upstairs_connection.session_id,
            job_id: job.ds_id,
            result,
        }),
{
    Message::FlushAck {
        upstairs_id: job.upstairs_connection.upstairs_id,
        session_id: job.upstairs_connection.session_id,
        job_id: job.ds_id,
        result,
    }
}

} // verus!
