//! Eviction notification. The registry stores, for every active session, the
//! sending half of a single-slot channel; when a promotion evicts that
//! session, the registry posts the winning connection's identity on it. The
//! channel type comes from an outside crate and is opaque here: nothing is
//! assumed about delivery, and a closed or full channel is tolerated.

use vstd::prelude::*;

use crate::protocol::UpstairsConnection;

verus! {

#[verifier::external_type_specification]
#[verifier::external_body]
#[verifier::reject_recursive_types(T)]
pub struct ExSender<T>(tokio::sync::mpsc::Sender<T>);

/// The identity triple posted to an evicted session: its successor's
/// upstairs id, session id and generation.
pub type TerminateSender = tokio::sync::mpsc::Sender<(u128, u128, u64)>;

/// Relies on tokio's `Sender::try_send`: posts the triple without blocking
/// and drops it if the receiver is gone or the slot is full, which is the
/// tolerated best-effort of the eviction signal. Nothing is promised of the
/// outcome.
#[verifier::external_body]
pub fn send_terminate(tx: &TerminateSender, conn: UpstairsConnection) {
    let _ = tx.try_send((conn.upstairs_id, conn.session_id, conn.gen));
}

} // verus!
