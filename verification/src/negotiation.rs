//! The per-connection handshake: four ordered steps from greeting to the
//! first IO, each gated by the current step and an identity check, with
//! pings answered and unknown frames ignored throughout.

use vstd::prelude::*;

use crate::notify::TerminateSender;
use crate::protocol::{CrucibleError, Message, UpstairsConnection};
use crate::registry::{promote_ok_rel, promote_refusal, Downstairs};

verus! {

/// Progress of one connection's handshake. `negotiated` counts the steps
/// completed, from 0 (nothing yet) to 4 (ready for IO); the connection's
/// identity is recorded by the greeting and immutable afterwards, except
/// that the promote step may update its generation once.
pub struct NegotiationState {
    pub negotiated: u64,
    pub upstairs_connection: Option<UpstairsConnection>,
}

impl NegotiationState {
    /// From the greeting on, an identity is recorded.
    pub open spec fn wf(self) -> bool {
        &&& self.negotiated <= 4
        &&& self.negotiated >= 1 ==> self.upstairs_connection is Some
    }

    pub fn new() -> (s: NegotiationState)
        ensures
            s.negotiated == 0,
            s.upstairs_connection is None,
            s.wf(),
    {
        NegotiationState { negotiated: 0, upstairs_connection: None }
    }
}

/// What the caller must do with the frame it handed in.
#[derive(Debug, PartialEq)]
pub enum NegotiationAction {
    /// Send this frame and keep negotiating (or, once `negotiated` is 4,
    /// start taking IO).
    Reply(Message),
    /// Send this frame, then close the connection.
    ReplyAndFail(Message),
    /// Close the connection without a reply.
    Fail,
    /// Not part of the handshake: drop the frame and carry on.
    Ignore,
    /// Step 4 reached: gather the per-extent generation, flush and dirty
    /// arrays from the region, send them as `ExtentVersions`, and start
    /// taking IO.
    FetchExtentVersions,
}

/// How one frame advances the handshake, step by step:
/// `HereIAm` (step 0) checks version and node flags and records the
/// identity; `PromoteToActive` (step 1) checks the identity, may update the
/// generation, and arbitrates through the registry; `RegionInfoPlease`
/// (step 2) answers with the region geometry; `LastFlush` or
/// `ExtentVersionsPlease` (step 3) completes the handshake. A frame out of
/// order fails the connection; `Ruok` is answered in place; anything else
/// is ignored.
pub open spec fn negotiate_rel(
    pre: NegotiationState,
    post: NegotiationState,
    pre_ds: Downstairs,
    post_ds: Downstairs,
    m: Message,
    tx: TerminateSender,
    r: NegotiationAction,
) -> bool {
    match m {
        Message::Ruok => r == NegotiationAction::Reply(Message::Imok) && post == pre && post_ds
            == pre_ds,
        Message::HereIAm { version, upstairs_id, session_id, gen, read_only, encrypted } => if pre.negotiated
            != 0 {
            r == NegotiationAction::Fail && post == pre && post_ds == pre_ds
        } else if version != 1 {
            r == NegotiationAction::Fail && post == pre && post_ds == pre_ds
        } else if read_only != pre_ds.read_only {
            r == NegotiationAction::ReplyAndFail(
                Message::ReadOnlyMismatch { expected: pre_ds.read_only },
            ) && post == pre && post_ds == pre_ds
        } else if encrypted != pre_ds.encrypted {
            r == NegotiationAction::ReplyAndFail(
                Message::EncryptedMismatch { expected: pre_ds.encrypted },
            ) && post == pre && post_ds == pre_ds
        } else {
            &&& post.negotiated == 1
            &&& post.upstairs_connection == Some(
                UpstairsConnection { upstairs_id, session_id, gen },
            )
            &&& post_ds == pre_ds
            &&& r matches NegotiationAction::Reply(Message::YesItsMe {
                version: v,
                repair_addr,
            }) && v == 1 && repair_addr@ == pre_ds.repair_address.unwrap()@
        },
        Message::PromoteToActive { upstairs_id, session_id, gen } => if pre.negotiated != 1 {
            r == NegotiationAction::Fail && post == pre && post_ds == pre_ds
        } else {
            let recorded = pre.upstairs_connection.unwrap();
            if upstairs_id != recorded.upstairs_id || session_id != recorded.session_id {
                r == NegotiationAction::ReplyAndFail(
                    Message::UuidMismatch { expected_id: recorded.upstairs_id },
                ) && post == pre && post_ds == pre_ds
            } else {
                let updated = UpstairsConnection { gen, ..recorded };
                if promote_refusal(pre_ds, updated) is Some {
                    r == NegotiationAction::Fail && post_ds == pre_ds && post.negotiated
                        == pre.negotiated && post.upstairs_connection == Some(updated)
                } else {
                    &&& promote_ok_rel(pre_ds, post_ds, updated, tx)
                    &&& post.negotiated == 2
                    &&& post.upstairs_connection == Some(updated)
                    &&& r == NegotiationAction::Reply(
                        Message::YouAreNowActive { upstairs_id, session_id, gen },
                    )
                }
            }
        },
        Message::RegionInfoPlease => if pre.negotiated != 2 {
            r == NegotiationAction::Fail && post == pre && post_ds == pre_ds
        } else {
            &&& post.negotiated == 3
            &&& post.upstairs_connection == pre.upstairs_connection
            &&& post_ds == pre_ds
            &&& r == NegotiationAction::Reply(
                Message::RegionInfo { region_def: pre_ds.region_def },
            )
        },
        Message::LastFlush { last_flush_number } => if pre.negotiated != 3 {
            r == NegotiationAction::Fail && post == pre && post_ds == pre_ds
        } else {
            let conn = pre.upstairs_connection.unwrap();
            if !pre_ds.is_active_spec(conn) {
                r == NegotiationAction::Fail && post == pre && post_ds == pre_ds
            } else {
                &&& post.negotiated == 4
                &&& post.upstairs_connection == pre.upstairs_connection
                &&& r == NegotiationAction::Reply(
                    Message::LastFlushAck { last_flush_number },
                )
                &&& post_ds.inv()
                &&& post_ds.entry(conn.upstairs_id).work.last_flush == last_flush_number
                &&& post_ds.entry(conn.upstairs_id).work.active@ == pre_ds.entry(
                    conn.upstairs_id,
                ).work.active@
                &&& post_ds.entry(conn.upstairs_id).work.completed@ == pre_ds.entry(
                    conn.upstairs_id,
                ).work.completed@
                &&& forall|uid: u128| #[trigger] post_ds.has_uid(uid) == pre_ds.has_uid(uid)
                &&& forall|uid: u128|
                    uid != conn.upstairs_id && pre_ds.has_uid(uid) ==> #[trigger] post_ds.entry(uid)
                        == pre_ds.entry(uid)
                &&& forall|c: UpstairsConnection|
                    #[trigger] post_ds.is_active_spec(c) == pre_ds.is_active_spec(c)
            }
        },
        Message::ExtentVersionsPlease => if pre.negotiated != 3 {
            r == NegotiationAction::Fail && post == pre && post_ds == pre_ds
        } else {
            &&& post.negotiated == 4
            &&& post.upstairs_connection == pre.upstairs_connection
            &&& post_ds == pre_ds
            &&& r == NegotiationAction::FetchExtentVersions
        },
        _ => r == NegotiationAction::Ignore && post == pre && post_ds == pre_ds,
    }
}

/// Advance the handshake by one inbound frame, exactly as `negotiate_rel`
/// spells out. The caller performs the returned action; `tx` becomes the
/// session's eviction channel if this frame is the accepted promote step.
pub fn negotiate(
    state: &mut NegotiationState,
    ds: &mut Downstairs,
    m: Message,
    tx: TerminateSender,
) -> (r: NegotiationAction)
    requires
        old(state).wf(),
        old(ds).inv(),
        old(ds).repair_address is Some,
    ensures
        final(state).wf(),
        final(ds).inv(),
        negotiate_rel(*old(state), *final(state), *old(ds), *final(ds), m, tx, r),
{
    match m {
        Message::Ruok => NegotiationAction::Reply(Message::Imok),
        Message::HereIAm { version, upstairs_id, session_id, gen, read_only, encrypted } => {
            if state.negotiated != 0 {
                return NegotiationAction::Fail;
            }
            if version != 1 {
                return NegotiationAction::Fail;
            }
            if read_only != ds.read_only {
                return NegotiationAction::ReplyAndFail(
                    Message::ReadOnlyMismatch { expected: ds.read_only },
                );
            }
            if encrypted != ds.encrypted {
                return NegotiationAction::ReplyAndFail(
                    Message::EncryptedMismatch { expected: ds.encrypted },
                );
            }
            state.negotiated = 1;
            state.upstairs_connection = Some(
                UpstairsConnection { upstairs_id, session_id, gen },
            );
            let repair_addr = match &ds.repair_address {
                Some(a) => a.clone(),
                None => {
                    proof {
                        assert(false);
                    }
                    String::new()
                },
            };
            NegotiationAction::Reply(Message::YesItsMe { version: 1, repair_addr })
        },
        Message::PromoteToActive { upstairs_id, session_id, gen } => {
            if state.negotiated != 1 {
                return NegotiationAction::Fail;
            }
            let recorded = match state.upstairs_connection {
                Some(c) => c,
                None => {
                    proof {
                        assert(false);
                    }
                    return NegotiationAction::Fail;
                },
            };
            if upstairs_id != recorded.upstairs_id || session_id != recorded.session_id {
                return NegotiationAction::ReplyAndFail(
                    Message::UuidMismatch { expected_id: recorded.upstairs_id },
                );
            }
            // The upstairs may advertise a newer generation here; record it.
            let updated = UpstairsConnection { gen, ..recorded };
            state.upstairs_connection = Some(updated);
            match ds.promote_to_active(updated, tx) {
                Ok(()) => {
                    state.negotiated = 2;
                    NegotiationAction::Reply(
                        Message::YouAreNowActive { upstairs_id, session_id, gen },
                    )
                },
                Err(_) => NegotiationAction::Fail,
            }
        },
        Message::RegionInfoPlease => {
            if state.negotiated != 2 {
                return NegotiationAction::Fail;
            }
            state.negotiated = 3;
            NegotiationAction::Reply(Message::RegionInfo { region_def: ds.region_def })
        },
        Message::LastFlush { last_flush_number } => {
            if state.negotiated != 3 {
                return NegotiationAction::Fail;
            }
            let conn = match state.upstairs_connection {
                Some(c) => c,
                None => {
                    proof {
                        assert(false);
                    }
                    return NegotiationAction::Fail;
                },
            };
            match ds.set_last_flush(conn, last_flush_number) {
                Ok(()) => {
                    state.negotiated = 4;
                    NegotiationAction::Reply(Message::LastFlushAck { last_flush_number })
                },
                Err(_) => NegotiationAction::Fail,
            }
        },
        Message::ExtentVersionsPlease => {
            if state.negotiated != 3 {
                return NegotiationAction::Fail;
            }
            state.negotiated = 4;
            NegotiationAction::FetchExtentVersions
        },
        _ => NegotiationAction::Ignore,
    }
}

} // verus!
