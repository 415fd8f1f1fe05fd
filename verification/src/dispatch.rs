//! Steady-state frame dispatch: after negotiation, each inbound frame is
//! answered directly, enqueued as a job, or handed back as a repair action
//! for the region engine to execute.

use vstd::prelude::*;

use crate::protocol::{CrucibleError, Message, UpstairsConnection};
use crate::registry::Downstairs;
use crate::work::{add_rel, DownstairsWork, IOop, WorkState};

verus! {

/// A repair operation that the caller must run against the region engine,
/// answering with `repair_reply`.
#[derive(Debug, PartialEq)]
pub enum RepairOp {
    Flush { repair_id: u64, extent_id: u64, flush_number: u64, gen_number: u64 },
    Close { repair_id: u64, extent_id: u64 },
    Repair { repair_id: u64, extent_id: u64, source_repair_address: String },
    Reopen { repair_id: u64, extent_id: u64 },
}

impl RepairOp {
    pub open spec fn repair_id(self) -> u64 {
        match self {
            RepairOp::Flush { repair_id, .. } => repair_id,
            RepairOp::Close { repair_id, .. } => repair_id,
            RepairOp::Repair { repair_id, .. } => repair_id,
            RepairOp::Reopen { repair_id, .. } => repair_id,
        }
    }

    pub open spec fn extent_id(self) -> u64 {
        match self {
            RepairOp::Flush { extent_id, .. } => extent_id,
            RepairOp::Close { extent_id, .. } => extent_id,
            RepairOp::Repair { extent_id, .. } => extent_id,
            RepairOp::Reopen { extent_id, .. } => extent_id,
        }
    }
}

/// What the dispatcher decided for one frame.
#[derive(Debug, PartialEq)]
pub enum DispatchAction {
    /// Send this frame back; nothing was queued.
    Reply(Message),
    /// The job with this id was queued; wake the worker.
    Enqueued(u64),
    /// Run this repair operation against the region, then reply with
    /// `repair_reply`.
    Repair(RepairOp),
}

/// How one IO frame is dispatched: a frame whose identity fields do not
/// match the session is answered with `UuidMismatch` and dropped; a
/// write-class frame on a read-only node is answered with the matching
/// acknowledgement carrying `ModifyingReadOnlyRegion`; a frame from a
/// connection that lost its session propagates `UpstairsInactive`;
/// otherwise the job is enqueued under its id, owned by the session, in
/// state `New`, and no other session's queue changes.
pub open spec fn io_frame_rel(
    pre: Downstairs,
    post: Downstairs,
    conn: UpstairsConnection,
    upstairs_id: u128,
    session_id: u128,
    job_id: u64,
    op: IOop,
    reject_ack: Message,
    r: Result<DispatchAction, CrucibleError>,
) -> bool {
    if upstairs_id != conn.upstairs_id {
        r == Ok::<DispatchAction, CrucibleError>(
            DispatchAction::Reply(Message::UuidMismatch { expected_id: conn.upstairs_id }),
        ) && post == pre
    } else if session_id != conn.session_id {
        r == Ok::<DispatchAction, CrucibleError>(
            DispatchAction::Reply(Message::UuidMismatch { expected_id: conn.session_id }),
        ) && post == pre
    } else if pre.read_only && op.spec_is_write() {
        r == Ok::<DispatchAction, CrucibleError>(DispatchAction::Reply(reject_ack)) && post == pre
    } else if !pre.is_active_spec(conn) {
        r == Err::<DispatchAction, CrucibleError>(CrucibleError::UpstairsInactive) && post == pre
    } else {
        &&& r == Ok::<DispatchAction, CrucibleError>(DispatchAction::Enqueued(job_id))
        &&& add_rel(
            pre.entry(conn.upstairs_id).work,
            post.entry(conn.upstairs_id).work,
            job_id,
            (DownstairsWork {
                upstairs_connection: conn,
                ds_id: job_id,
                work: op,
                state: WorkState::New,
            }),
        )
        &&& forall|uid: u128| #[trigger] post.has_uid(uid) == pre.has_uid(uid)
        &&& forall|uid: u128|
            uid != conn.upstairs_id && pre.has_uid(uid) ==> #[trigger] post.entry(uid) == pre.entry(
                uid,
            )
        &&& forall|c: UpstairsConnection| #[trigger] post.is_active_spec(c) == pre.is_active_spec(c)
    }
}

/// How the dispatcher handles each frame of the steady-state protocol.
pub open spec fn dispatch_rel(
    pre: Downstairs,
    post: Downstairs,
    conn: UpstairsConnection,
    m: Message,
    r: Result<DispatchAction, CrucibleError>,
) -> bool {
    match m {
        Message::Ruok => r == Ok::<DispatchAction, CrucibleError>(DispatchAction::Reply(Message::Imok)) && post == pre,
        Message::Write { upstairs_id, session_id, job_id, dependencies, writes } => io_frame_rel(
            pre,
            post,
            conn,
            upstairs_id,
            session_id,
            job_id,
            (IOop::Write { dependencies, writes }),
            (Message::WriteAck {
                upstairs_id: conn.upstairs_id,
                session_id: conn.session_id,
                job_id,
                result: Err(CrucibleError::ModifyingReadOnlyRegion),
            }),
            r,
        ),
        Message::WriteUnwritten {
            upstairs_id,
            session_id,
            job_id,
            dependencies,
            writes,
        } => io_frame_rel(
            pre,
            post,
            conn,
            upstairs_id,
            session_id,
            job_id,
            (IOop::WriteUnwritten { dependencies, writes }),
            (Message::WriteUnwrittenAck {
                upstairs_id: conn.upstairs_id,
                session_id: conn.session_id,
                job_id,
                result: Err(CrucibleError::ModifyingReadOnlyRegion),
            }),
            r,
        ),
        Message::Flush {
            upstairs_id,
            session_id,
            job_id,
            dependencies,
            flush_number,
            gen_number,
            snapshot_details,
        } => io_frame_rel(
            pre,
            post,
            conn,
            upstairs_id,
            session_id,
            job_id,
            (IOop::Flush { dependencies, flush_number, gen_number, snapshot_details }),
            (Message::FlushAck {
                upstairs_id: conn.upstairs_id,
                session_id: conn.session_id,
                job_id,
                result: Err(CrucibleError::ModifyingReadOnlyRegion),
            }),
            r,
        ),
        Message::ReadRequest { upstairs_id, session_id, job_id, dependencies, requests } => io_frame_rel(
            pre,
            post,
            conn,
            upstairs_id,
            session_id,
            job_id,
            (IOop::Read { dependencies, requests }),
            (Message::ReadResponse {
                upstairs_id: conn.upstairs_id,
                session_id: conn.session_id,
                job_id,
                responses: Err(CrucibleError::ModifyingReadOnlyRegion),
            }),
            r,
        ),
        Message::ExtentFlush { repair_id, extent_id, client_id, flush_number, gen_number } => r
            == Ok::<DispatchAction, CrucibleError>(
            DispatchAction::Repair(
                RepairOp::Flush { repair_id, extent_id, flush_number, gen_number },
            ),
        ) && post == pre,
        Message::ExtentClose { repair_id, extent_id } => r == Ok::<DispatchAction, CrucibleError>(
            DispatchAction::Repair(RepairOp::Close { repair_id, extent_id }),
        ) && post == pre,
        Message::ExtentRepair {
            repair_id,
            extent_id,
            source_client_id,
            source_repair_address,
            dest_clients,
        } => r == Ok::<DispatchAction, CrucibleError>(
            DispatchAction::Repair(
                RepairOp::Repair { repair_id, extent_id, source_repair_address },
            ),
        ) && post == pre,
        Message::ExtentReopen { repair_id, extent_id } => r == Ok::<DispatchAction, CrucibleError>(
            DispatchAction::Repair(RepairOp::Reopen { repair_id, extent_id }),
        ) && post == pre,
        _ => r == Err::<DispatchAction, CrucibleError>(CrucibleError::UnsupportedMessage) && post == pre,
    }
}

/// Decide what to do with one steady-state frame from
/// `upstairs_connection`'s session, as `dispatch_rel` spells out case by
/// case: answer pings, validate identity, enqueue IO, hand repair
/// operations back, and refuse anything that is not part of the
/// steady-state protocol.
pub fn proc_frame(
    ds: &mut Downstairs,
    upstairs_connection: UpstairsConnection,
    m: Message,
) -> (r: Result<DispatchAction, CrucibleError>)
    requires
        old(ds).inv(),
    ensures
        final(ds).inv(),
        dispatch_rel(*old(ds), *final(ds), upstairs_connection, m, r),
{
    match m {
        Message::Ruok => Ok(DispatchAction::Reply(Message::Imok)),
        Message::Write { upstairs_id, session_id, job_id, dependencies, writes } => {
            if upstairs_id != upstairs_connection.upstairs_id {
                return Ok(
                    DispatchAction::Reply(
                        Message::UuidMismatch { expected_id: upstairs_connection.upstairs_id },
                    ),
                );
            }
            if session_id != upstairs_connection.session_id {
                return Ok(
                    DispatchAction::Reply(
                        Message::UuidMismatch { expected_id: upstairs_connection.session_id },
                    ),
                );
            }
            let op = IOop::Write { dependencies, writes };
            match ds.add_work(upstairs_connection, job_id, op) {
                Ok(()) => Ok(DispatchAction::Enqueued(job_id)),
                Err(CrucibleError::ModifyingReadOnlyRegion) => Ok(
                    DispatchAction::Reply(
                        Message::WriteAck {
                            upstairs_id: upstairs_connection.upstairs_id,
                            session_id: upstairs_connection.session_id,
                            job_id,
                            result: Err(CrucibleError::ModifyingReadOnlyRegion),
                        },
                    ),
                ),
                Err(e) => Err(e),
            }
        },
        Message::WriteUnwritten { upstairs_id, session_id, job_id, dependencies, writes } => {
            if upstairs_id != upstairs_connection.upstairs_id {
                return Ok(
                    DispatchAction::Reply(
                        Message::UuidMismatch { expected_id: upstairs_connection.upstairs_id },
                    ),
                );
            }
            if session_id != upstairs_connection.session_id {
                return Ok(
                    DispatchAction::Reply(
                        Message::UuidMismatch { expected_id: upstairs_connection.session_id },
                    ),
                );
            }
            let op = IOop::WriteUnwritten { dependencies, writes };
            match ds.add_work(upstairs_connection, job_id, op) {
                Ok(()) => Ok(DispatchAction::Enqueued(job_id)),
                Err(CrucibleError::ModifyingReadOnlyRegion) => Ok(
                    DispatchAction::Reply(
                        Message::WriteUnwrittenAck {
                            upstairs_id: upstairs_connection.upstairs_id,
                            session_id: upstairs_connection.session_id,
                            job_id,
                            result: Err(CrucibleError::ModifyingReadOnlyRegion),
                        },
                    ),
                ),
                Err(e) => Err(e),
            }
        },
        Message::Flush {
            upstairs_id,
            session_id,
            job_id,
            dependencies,
            flush_number,
            gen_number,
            snapshot_details,
        } => {
            if upstairs_id != upstairs_connection.upstairs_id {
                return Ok(
                    DispatchAction::Reply(
                        Message::UuidMismatch { expected_id: upstairs_connection.upstairs_id },
                    ),
                );
            }
            if session_id != upstairs_connection.session_id {
                return Ok(
                    DispatchAction::Reply(
                        Message::UuidMismatch { expected_id: upstairs_connection.session_id },
                    ),
                );
            }
            let op = IOop::Flush { dependencies, flush_number, gen_number, snapshot_details };
            match ds.add_work(upstairs_connection, job_id, op) {
                Ok(()) => Ok(DispatchAction::Enqueued(job_id)),
                Err(CrucibleError::ModifyingReadOnlyRegion) => Ok(
                    DispatchAction::Reply(
                        Message::FlushAck {
                            upstairs_id: upstairs_connection.upstairs_id,
                            session_id: upstairs_connection.session_id,
                            job_id,
                            result: Err(CrucibleError::ModifyingReadOnlyRegion),
                        },
                    ),
                ),
                Err(e) => Err(e),
            }
        },
        Message::ReadRequest { upstairs_id, session_id, job_id, dependencies, requests } => {
            if upstairs_id != upstairs_connection.upstairs_id {
                return Ok(
                    DispatchAction::Reply(
                        Message::UuidMismatch { expected_id: upstairs_connection.upstairs_id },
                    ),
                );
            }
            if session_id != upstairs_connection.session_id {
                return Ok(
                    DispatchAction::Reply(
                        Message::UuidMismatch { expected_id: upstairs_connection.session_id },
                    ),
                );
            }
            let op = IOop::Read { dependencies, requests };
            match ds.add_work(upstairs_connection, job_id, op) {
                Ok(()) => Ok(DispatchAction::Enqueued(job_id)),
                Err(CrucibleError::ModifyingReadOnlyRegion) => Ok(
                    DispatchAction::Reply(
                        Message::ReadResponse {
                            upstairs_id: upstairs_connection.upstairs_id,
                            session_id: upstairs_connection.session_id,
                            job_id,
                            responses: Err(CrucibleError::ModifyingReadOnlyRegion),
                        },
                    ),
                ),
                Err(e) => Err(e),
            }
        },
        Message::ExtentFlush { repair_id, extent_id, client_id: _, flush_number, gen_number } => Ok(
            DispatchAction::Repair(
                RepairOp::Flush { repair_id, extent_id, flush_number, gen_number },
            ),
        ),
        Message::ExtentClose { repair_id, extent_id } => Ok(
            DispatchAction::Repair(RepairOp::Close { repair_id, extent_id }),
        ),
        Message::ExtentRepair {
            repair_id,
            extent_id,
            source_client_id: _,
            source_repair_address,
            dest_clients: _,
        } => Ok(
            DispatchAction::Repair(RepairOp::Repair { repair_id, extent_id, source_repair_address }),
        ),
        Message::ExtentReopen { repair_id, extent_id } => Ok(
            DispatchAction::Repair(RepairOp::Reopen { repair_id, extent_id }),
        ),
        _ => Err(CrucibleError::UnsupportedMessage),
    }
}

/// The reply for a finished repair operation: an acknowledgement of its
/// repair id on success, or an extent error carrying what went wrong.
pub fn repair_reply(op: &RepairOp, result: Result<(), CrucibleError>) -> (m: Message)
    ensures
        result is Ok ==> m == (Message::RepairAckId { repair_id: op.repair_id() }),
        result matches Err(e) ==> m == (Message::ExtentError {
            repair_id: op.repair_id(),
            extent_id: op.extent_id(),
            error: e,
        }),
{
    let (repair_id, extent_id) = match op {
        RepairOp::Flush { repair_id, extent_id, .. } => (*repair_id, *extent_id),
        RepairOp::Close { repair_id, extent_id } => (*repair_id, *extent_id),
        RepairOp::Repair { repair_id, extent_id, .. } => (*repair_id, *extent_id),
        RepairOp::Reopen { repair_id, extent_id } => (*repair_id, *extent_id),
    };
    match result {
        Ok(()) => Message::RepairAckId { repair_id },
        Err(e) => Message::ExtentError { repair_id, extent_id, error: e },
    }
}

} // verus!
