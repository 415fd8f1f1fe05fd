// Exercises session arbitration: promotion, generation fencing, eviction
// signalling, and the checked gateway to each session's queue.

use downstairs::protocol::{
    CrucibleError, ReadRequest, RegionDefinition, UpstairsConnection,
};
use downstairs::registry::{read_ack, Downstairs};
use downstairs::work::{IOop, WorkState};
use tokio::sync::mpsc::error::TryRecvError;

type Terminate = (u128, u128, u64);

fn test_def() -> RegionDefinition {
    RegionDefinition {
        uuid: uuid::Uuid::new_v4().as_u128(),
        block_size: 512,
        extent_size: 4,
        extent_count: 2,
    }
}

fn build_test_downstairs(read_only: bool) -> Downstairs {
    Downstairs::new(test_def(), false, false, read_only, false)
}

fn conn(gen: u64) -> UpstairsConnection {
    UpstairsConnection {
        upstairs_id: uuid::Uuid::new_v4().as_u128(),
        session_id: uuid::Uuid::new_v4().as_u128(),
        gen,
    }
}

fn triple(c: UpstairsConnection) -> Terminate {
    (c.upstairs_id, c.session_id, c.gen)
}

#[test]
fn test_promote_to_active_one_read_write() {
    let mut ds = build_test_downstairs(false);

    let upstairs_connection = conn(1);

    let (tx, mut _rx) = tokio::sync::mpsc::channel::<Terminate>(1);

    ds.promote_to_active(upstairs_connection, tx).unwrap();

    assert_eq!(ds.active_upstairs().len(), 1);
}

#[test]
fn test_promote_to_active_one_read_only() {
    let mut ds = build_test_downstairs(true);

    let upstairs_connection = conn(1);

    let (tx, mut _rx) = tokio::sync::mpsc::channel::<Terminate>(1);

    ds.promote_to_active(upstairs_connection, tx).unwrap();

    assert_eq!(ds.active_upstairs().len(), 1);
}

#[test]
fn test_promote_to_active_multi_read_write_different_uuid_same_gen() {
    // Attempting to activate multiple read-write (where it's different
    // Upstairs) but with the same gen should be blocked
    let mut ds = build_test_downstairs(false);

    let upstairs_connection_1 = conn(1);
    let upstairs_connection_2 = conn(1);

    let (tx1, mut rx1) = tokio::sync::mpsc::channel::<Terminate>(1);
    let (tx2, mut rx2) = tokio::sync::mpsc::channel::<Terminate>(1);

    ds.promote_to_active(upstairs_connection_1, tx1).unwrap();

    assert_eq!(ds.active_upstairs().len(), 1);
    assert!(matches!(rx1.try_recv().err().unwrap(), TryRecvError::Empty));
    assert!(matches!(rx2.try_recv().err().unwrap(), TryRecvError::Empty));

    let res = ds.promote_to_active(upstairs_connection_2, tx2);
    assert!(res.is_err());
    assert_eq!(res.unwrap_err(), CrucibleError::ActiveSessionMismatch);

    assert!(matches!(rx1.try_recv().unwrap_err(), TryRecvError::Empty));
    assert!(matches!(
        rx2.try_recv().unwrap_err(),
        TryRecvError::Disconnected
    ));

    assert_eq!(ds.active_upstairs().len(), 1);

    // Original connection is still active.
    assert!(ds.is_active(upstairs_connection_1));
    // New connection was blocked.
    assert!(!ds.is_active(upstairs_connection_2));
}

#[test]
fn test_promote_to_active_multi_read_write_different_uuid_lower_gen() {
    // Attempting to activate multiple read-write (where it's different
    // Upstairs) but with a lower gen should be blocked.
    let mut ds = build_test_downstairs(false);

    let upstairs_connection_1 = conn(2);
    let upstairs_connection_2 = conn(1);

    let (tx1, mut rx1) = tokio::sync::mpsc::channel::<Terminate>(1);
    let (tx2, mut rx2) = tokio::sync::mpsc::channel::<Terminate>(1);

    ds.promote_to_active(upstairs_connection_1, tx1).unwrap();

    assert_eq!(ds.active_upstairs().len(), 1);
    assert!(matches!(rx1.try_recv().err().unwrap(), TryRecvError::Empty));
    assert!(matches!(rx2.try_recv().err().unwrap(), TryRecvError::Empty));

    let res = ds.promote_to_active(upstairs_connection_2, tx2);
    assert!(res.is_err());
    assert_eq!(res.unwrap_err(), CrucibleError::GenerationNumberTooLow);

    assert!(matches!(rx1.try_recv().unwrap_err(), TryRecvError::Empty));
    assert!(matches!(
        rx2.try_recv().unwrap_err(),
        TryRecvError::Disconnected
    ));

    assert_eq!(ds.active_upstairs().len(), 1);

    // Original connection is still active.
    assert!(ds.is_active(upstairs_connection_1));
    // New connection was blocked.
    assert!(!ds.is_active(upstairs_connection_2));
}

#[test]
fn test_promote_to_active_multi_read_write_same_uuid_same_gen() {
    // Attempting to activate multiple read-write (where it's the same
    // Upstairs but a different session) will block the "new" connection
    // if it has the same generation number.
    let mut ds = build_test_downstairs(false);

    let upstairs_connection_1 = conn(1);
    let upstairs_connection_2 = UpstairsConnection {
        upstairs_id: upstairs_connection_1.upstairs_id,
        session_id: uuid::Uuid::new_v4().as_u128(),
        gen: 1,
    };

    let (tx1, mut rx1) = tokio::sync::mpsc::channel::<Terminate>(1);
    let (tx2, mut rx2) = tokio::sync::mpsc::channel::<Terminate>(1);

    ds.promote_to_active(upstairs_connection_1, tx1).unwrap();

    assert_eq!(ds.active_upstairs().len(), 1);
    assert!(matches!(rx1.try_recv().err().unwrap(), TryRecvError::Empty));
    assert!(matches!(rx2.try_recv().err().unwrap(), TryRecvError::Empty));

    let res = ds.promote_to_active(upstairs_connection_2, tx2);
    assert!(res.is_err());

    assert!(matches!(rx1.try_recv().unwrap_err(), TryRecvError::Empty));
    assert!(matches!(
        rx2.try_recv().unwrap_err(),
        TryRecvError::Disconnected
    ));

    assert_eq!(ds.active_upstairs().len(), 1);

    assert!(ds.is_active(upstairs_connection_1));
    assert!(!ds.is_active(upstairs_connection_2));
}

#[test]
fn test_promote_to_active_multi_read_write_same_uuid_larger_gen() {
    // Attempting to activate multiple read-write where it's the same
    // Upstairs, but a different session, and with a larger generation
    // should allow the new connection to take over.
    let mut ds = build_test_downstairs(false);

    let upstairs_connection_1 = conn(1);
    let upstairs_connection_2 = UpstairsConnection {
        upstairs_id: upstairs_connection_1.upstairs_id,
        session_id: uuid::Uuid::new_v4().as_u128(),
        gen: 2,
    };

    let (tx1, mut rx1) = tokio::sync::mpsc::channel::<Terminate>(1);
    let (tx2, mut rx2) = tokio::sync::mpsc::channel::<Terminate>(1);

    ds.promote_to_active(upstairs_connection_1, tx1).unwrap();

    assert_eq!(ds.active_upstairs().len(), 1);
    assert!(matches!(rx1.try_recv().err().unwrap(), TryRecvError::Empty));
    assert!(matches!(rx2.try_recv().err().unwrap(), TryRecvError::Empty));

    ds.promote_to_active(upstairs_connection_2, tx2).unwrap();
    assert_eq!(rx1.try_recv().unwrap(), triple(upstairs_connection_2));
    assert!(matches!(rx2.try_recv().unwrap_err(), TryRecvError::Empty));

    assert_eq!(ds.active_upstairs().len(), 1);

    assert!(!ds.is_active(upstairs_connection_1));
    assert!(ds.is_active(upstairs_connection_2));
}

#[test]
fn test_promote_to_active_multi_read_only_different_uuid() {
    // Activating multiple read-only with different Upstairs UUIDs should
    // work.
    let mut ds = build_test_downstairs(true);

    let upstairs_connection_1 = conn(1);
    let upstairs_connection_2 = conn(1);

    let (tx1, mut rx1) = tokio::sync::mpsc::channel::<Terminate>(1);
    let (tx2, mut rx2) = tokio::sync::mpsc::channel::<Terminate>(1);

    ds.promote_to_active(upstairs_connection_1, tx1).unwrap();

    assert_eq!(ds.active_upstairs().len(), 1);
    assert!(matches!(rx1.try_recv().err().unwrap(), TryRecvError::Empty));
    assert!(matches!(rx2.try_recv().err().unwrap(), TryRecvError::Empty));

    ds.promote_to_active(upstairs_connection_2, tx2).unwrap();
    assert!(matches!(rx1.try_recv().err().unwrap(), TryRecvError::Empty));
    assert!(matches!(rx2.try_recv().err().unwrap(), TryRecvError::Empty));

    assert_eq!(ds.active_upstairs().len(), 2);

    assert!(ds.is_active(upstairs_connection_1));
    assert!(ds.is_active(upstairs_connection_2));
}

#[test]
fn test_promote_to_active_multi_read_only_same_uuid() {
    // Activating multiple read-only with the same Upstairs UUID should
    // kick out the other active one.
    let mut ds = build_test_downstairs(true);

    let upstairs_connection_1 = conn(1);
    let upstairs_connection_2 = UpstairsConnection {
        upstairs_id: upstairs_connection_1.upstairs_id,
        session_id: uuid::Uuid::new_v4().as_u128(),
        gen: 1,
    };

    let (tx1, mut rx1) = tokio::sync::mpsc::channel::<Terminate>(1);
    let (tx2, mut rx2) = tokio::sync::mpsc::channel::<Terminate>(1);

    ds.promote_to_active(upstairs_connection_1, tx1).unwrap();

    assert_eq!(ds.active_upstairs().len(), 1);
    assert!(matches!(rx1.try_recv().err().unwrap(), TryRecvError::Empty));
    assert!(matches!(rx2.try_recv().err().unwrap(), TryRecvError::Empty));

    ds.promote_to_active(upstairs_connection_2, tx2).unwrap();
    assert_eq!(rx1.try_recv().unwrap(), triple(upstairs_connection_2));
    assert!(matches!(rx2.try_recv().unwrap_err(), TryRecvError::Empty));

    assert_eq!(ds.active_upstairs().len(), 1);

    assert!(!ds.is_active(upstairs_connection_1));
    assert!(ds.is_active(upstairs_connection_2));
}

#[test]
fn test_multiple_read_only_no_job_id_collision() {
    // Two read-only Upstairs shouldn't see each other's jobs
    let mut ds = build_test_downstairs(true);

    let upstairs_connection_1 = conn(1);
    let upstairs_connection_2 = conn(1);

    let (tx1, mut rx1) = tokio::sync::mpsc::channel::<Terminate>(1);
    let (tx2, mut rx2) = tokio::sync::mpsc::channel::<Terminate>(1);

    ds.promote_to_active(upstairs_connection_1, tx1).unwrap();

    assert_eq!(ds.active_upstairs().len(), 1);
    assert!(matches!(rx1.try_recv().err().unwrap(), TryRecvError::Empty));
    assert!(matches!(rx2.try_recv().err().unwrap(), TryRecvError::Empty));

    ds.promote_to_active(upstairs_connection_2, tx2).unwrap();
    assert!(matches!(rx1.try_recv().err().unwrap(), TryRecvError::Empty));
    assert!(matches!(rx2.try_recv().unwrap_err(), TryRecvError::Empty));

    assert_eq!(ds.active_upstairs().len(), 2);

    let read_1 = IOop::Read {
        dependencies: Vec::new(),
        requests: vec![ReadRequest { eid: 0, offset: 1 }],
    };
    ds.add_work(upstairs_connection_1, 1000, read_1.clone())
        .unwrap();

    let read_2 = IOop::Read {
        dependencies: Vec::new(),
        requests: vec![ReadRequest { eid: 1, offset: 2 }],
    };
    ds.add_work(upstairs_connection_2, 1000, read_2.clone())
        .unwrap();

    let work_1 = ds.new_work(upstairs_connection_1).unwrap();
    let work_2 = ds.new_work(upstairs_connection_2).unwrap();

    assert_eq!(work_1, work_2);

    let job_1 = ds.get_job(upstairs_connection_1, 1000).unwrap().unwrap();

    assert_eq!(job_1.upstairs_connection, upstairs_connection_1);
    assert_eq!(job_1.ds_id, 1000);
    assert_eq!(job_1.work, read_1);
    assert_eq!(job_1.state, WorkState::New);

    let job_2 = ds.get_job(upstairs_connection_2, 1000).unwrap().unwrap();

    assert_eq!(job_2.upstairs_connection, upstairs_connection_2);
    assert_eq!(job_2.ds_id, 1000);
    assert_eq!(job_2.work, read_2);
    assert_eq!(job_2.state, WorkState::New);
}

// The worker's read path without the region: take the job, build the ack.
fn do_read_job(ds: &mut Downstairs, c: UpstairsConnection, id: u64) -> downstairs::protocol::Message {
    let ip_id = ds.in_progress(c, id).unwrap().unwrap();
    assert_eq!(ip_id, id);
    let job = ds.get_ready_job(c, id).unwrap().unwrap();
    read_ack(job, Ok(vec![]))
}

#[test]
fn test_simple_read() {
    // One session, two reads in dependency order, acknowledged and
    // completed through the registry.
    let mut ds = build_test_downstairs(false);

    let upstairs_connection = conn(10);

    let (tx, mut _rx) = tokio::sync::mpsc::channel::<Terminate>(1);

    ds.promote_to_active(upstairs_connection, tx).unwrap();

    let rio = IOop::Read {
        dependencies: Vec::new(),
        requests: vec![ReadRequest { eid: 0, offset: 1 }],
    };
    ds.add_work(upstairs_connection, 1000, rio).unwrap();

    let deps = vec![1000];
    let rio = IOop::Read {
        dependencies: deps,
        requests: vec![ReadRequest { eid: 1, offset: 1 }],
    };
    ds.add_work(upstairs_connection, 1001, rio).unwrap();

    // Now we mimic what happens in the worker loop.
    let new_work = ds.new_work(upstairs_connection).unwrap();
    assert_eq!(new_work.len(), 2);

    for id in new_work.iter() {
        let m = do_read_job(&mut ds, upstairs_connection, *id);
        ds.complete_work(upstairs_connection, *id, m).unwrap();
    }
    assert_eq!(ds.jobs(upstairs_connection).unwrap(), 0);
}

#[test]
fn test_complete_work_cannot_see_none_same_upstairs_id() {
    // Validate that `complete_work` cannot return Ok if the same Upstairs
    // ID (but a different session) goes active.
    let mut ds = build_test_downstairs(false);

    let upstairs_connection_1 = conn(10);

    let (tx1, mut rx1) = tokio::sync::mpsc::channel::<Terminate>(1);

    ds.promote_to_active(upstairs_connection_1, tx1).unwrap();

    // Add one job, id 1000
    let rio = IOop::Read {
        dependencies: Vec::new(),
        requests: vec![ReadRequest { eid: 0, offset: 1 }],
    };
    ds.add_work(upstairs_connection_1, 1000, rio).unwrap();

    // Now we mimic what happens in the worker loop.
    let new_work = ds.new_work(upstairs_connection_1).unwrap();
    assert_eq!(new_work.len(), 1);

    let m = do_read_job(&mut ds, upstairs_connection_1, 1000);

    // Before complete_work, say promote_to_active runs again for another
    // connection - same UUID, different session
    let upstairs_connection_2 = UpstairsConnection {
        upstairs_id: upstairs_connection_1.upstairs_id,
        session_id: uuid::Uuid::new_v4().as_u128(),
        gen: 11,
    };

    let (tx2, mut _rx2) = tokio::sync::mpsc::channel::<Terminate>(1);

    ds.promote_to_active(upstairs_connection_2, tx2).unwrap();

    assert_eq!(rx1.try_recv().unwrap(), triple(upstairs_connection_2));

    // This should error with UpstairsInactive - upstairs_connection_1 isn't
    // active anymore and can't grab the work lock.
    let result = ds.complete_work(upstairs_connection_1, 1000, m);
    assert_eq!(result.unwrap_err(), CrucibleError::UpstairsInactive);
}

#[test]
fn test_complete_work_cannot_see_none_different_upstairs_id() {
    // Validate that `complete_work` cannot return Ok if a different
    // Upstairs ID goes active.
    let mut ds = build_test_downstairs(false);

    let upstairs_connection_1 = conn(10);

    let (tx1, mut rx1) = tokio::sync::mpsc::channel::<Terminate>(1);

    ds.promote_to_active(upstairs_connection_1, tx1).unwrap();

    // Add one job, id 1000
    let rio = IOop::Read {
        dependencies: Vec::new(),
        requests: vec![ReadRequest { eid: 0, offset: 1 }],
    };
    ds.add_work(upstairs_connection_1, 1000, rio).unwrap();

    let new_work = ds.new_work(upstairs_connection_1).unwrap();
    assert_eq!(new_work.len(), 1);

    let m = do_read_job(&mut ds, upstairs_connection_1, 1000);

    // Before complete_work, say promote_to_active runs again for another
    // connection with a higher generation.
    let upstairs_connection_2 = conn(11);

    let (tx2, mut _rx2) = tokio::sync::mpsc::channel::<Terminate>(1);

    ds.promote_to_active(upstairs_connection_2, tx2).unwrap();

    assert_eq!(rx1.try_recv().unwrap(), triple(upstairs_connection_2));

    // This should error with UpstairsInactive - upstairs_connection_1 isn't
    // active anymore and can't grab the work lock.
    let result = ds.complete_work(upstairs_connection_1, 1000, m);
    assert_eq!(result.unwrap_err(), CrucibleError::UpstairsInactive);
}

#[test]
fn test_complete_work_can_see_none() {
    // Validate that `complete_work` stays Ok (as a no-op) if the same
    // Upstairs reconnects: the session and upstairs ids match, so the
    // re-promotion replaces the queue and the late completion finds its
    // job id gone.
    let mut ds = build_test_downstairs(false);

    let upstairs_connection_1 = conn(10);

    let (tx1, mut rx1) = tokio::sync::mpsc::channel::<Terminate>(1);

    ds.promote_to_active(upstairs_connection_1, tx1).unwrap();

    // Add one job, id 1000
    let rio = IOop::Read {
        dependencies: Vec::new(),
        requests: vec![ReadRequest { eid: 0, offset: 1 }],
    };
    ds.add_work(upstairs_connection_1, 1000, rio).unwrap();

    let new_work = ds.new_work(upstairs_connection_1).unwrap();
    assert_eq!(new_work.len(), 1);

    let m = do_read_job(&mut ds, upstairs_connection_1, 1000);

    // Before complete_work, the same Upstairs reconnects and goes active
    let (tx2, mut _rx2) = tokio::sync::mpsc::channel::<Terminate>(1);

    ds.promote_to_active(upstairs_connection_1, tx2).unwrap();

    // In the real downstairs, there would be two task sets now that both
    // correspond to upstairs_connection_1.

    // Validate that the original set of tasks were sent the termination
    // signal.
    assert_eq!(rx1.try_recv().unwrap(), triple(upstairs_connection_1));

    // If the original set of tasks don't end right away, they'll try to
    // run complete_work:
    let result = ds.complete_work(upstairs_connection_1, 1000, m);

    // `complete_work` will return Ok(()) despite not doing anything to the
    // Work struct.
    assert!(result.is_ok());
    assert_eq!(ds.jobs(upstairs_connection_1).unwrap(), 0);
}

#[test]
fn clear_active_forgets_the_session() {
    let mut ds = build_test_downstairs(false);
    let c1 = conn(1);
    let (tx, mut _rx) = tokio::sync::mpsc::channel::<Terminate>(1);
    ds.promote_to_active(c1, tx).unwrap();
    assert!(ds.is_active(c1));

    ds.clear_active(c1).unwrap();
    assert!(!ds.is_active(c1));
    assert_eq!(ds.active_upstairs().len(), 0);
    assert_eq!(
        ds.clear_active(c1).unwrap_err(),
        CrucibleError::UpstairsInactive
    );
}

#[test]
fn rw_takeover_discards_pending_work() {
    // A read-write takeover with a higher generation evicts the incumbent:
    // it is signalled with the winner's identity, its late queue accesses
    // fail, and the winner starts with an empty queue.
    let mut ds = build_test_downstairs(false);

    let c1 = UpstairsConnection {
        upstairs_id: uuid::Uuid::new_v4().as_u128(),
        session_id: uuid::Uuid::new_v4().as_u128(),
        gen: 1,
    };
    let c2 = UpstairsConnection {
        upstairs_id: c1.upstairs_id,
        session_id: uuid::Uuid::new_v4().as_u128(),
        gen: 2,
    };

    let (tx1, mut rx1) = tokio::sync::mpsc::channel::<Terminate>(1);
    let (tx2, mut _rx2) = tokio::sync::mpsc::channel::<Terminate>(1);

    ds.promote_to_active(c1, tx1).unwrap();

    let wio = IOop::Write {
        dependencies: Vec::new(),
        writes: Vec::new(),
    };
    ds.add_work(c1, 1000, wio).unwrap();
    assert_eq!(ds.jobs(c1).unwrap(), 1);

    ds.promote_to_active(c2, tx2).unwrap();

    // The evicted session learns who displaced it.
    assert_eq!(rx1.try_recv().unwrap(), triple(c2));
    // Its next queue access fails.
    assert_eq!(ds.jobs(c1).unwrap_err(), CrucibleError::UpstairsInactive);
    assert_eq!(
        ds.new_work(c1).unwrap_err(),
        CrucibleError::UpstairsInactive
    );
    // The winner starts clean.
    assert_eq!(ds.jobs(c2).unwrap(), 0);
}
