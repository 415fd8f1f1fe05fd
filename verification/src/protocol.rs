//! Data model of the wire protocol spoken between an upstairs and this
//! downstairs node. Identifiers that travel as UUIDs on the wire are carried
//! here as `u128` values; payload bytes are plain `Vec<u8>`.

use vstd::prelude::*;

verus! {

/// Identity of a single remote upstairs session: a stable upstairs id, a
/// per-TCP-session id, and a generation number used as a fencing token.
#[derive(Clone, Copy, Debug, PartialEq, Eq, Hash, Structural)]
pub struct UpstairsConnection {
    pub upstairs_id: u128,
    pub session_id: u128,
    pub gen: u64,
}

/// Errors surfaced by the queue, the registry and the dispatcher.
#[derive(Clone, Copy, Debug, PartialEq, Eq, Structural)]
pub enum CrucibleError {
    /// The named connection is not the registered owner of its work queue.
    UpstairsInactive,
    /// A write-class operation reached a read-only node.
    ModifyingReadOnlyRegion,
    /// A read-write promotion carried a generation below the incumbent's.
    GenerationNumberTooLow,
    /// A read-write promotion carried the incumbent's generation but a
    /// different identity.
    ActiveSessionMismatch,
    /// A repair operation named an extent the region does not have.
    InvalidExtent,
    /// A frame that is not part of the steady-state protocol.
    UnsupportedMessage,
    /// Catch-all for injected or region-reported failures.
    GenericError,
}

/// Geometry of the local region: fixed-size extents of fixed-size blocks.
#[derive(Clone, Copy, Debug, PartialEq, Eq, Hash, Structural)]
pub struct RegionDefinition {
    pub uuid: u128,
    /// Size of one block in bytes.
    pub block_size: u64,
    /// Number of blocks in one extent.
    pub extent_size: u64,
    /// Number of extents in the region.
    pub extent_count: u32,
}

impl RegionDefinition {
    /// A usable region has positive block and extent sizes, and its total
    /// byte size fits a machine word.
    pub open spec fn wf(self) -> bool {
        &&& self.block_size > 0
        &&& self.extent_size > 0
        &&& self.block_size * self.extent_size * self.extent_count <= u64::MAX
    }
}

/// One block to read: an extent id and a block offset within that extent.
#[derive(Clone, Copy, Debug, PartialEq, Eq, Structural)]
pub struct ReadRequest {
    pub eid: u64,
    pub offset: u64,
}

/// Data read from one block.
#[derive(Clone, Debug, PartialEq)]
pub struct ReadResponse {
    pub eid: u64,
    pub offset: u64,
    pub data: Vec<u8>,
}

/// One block to write, with the integrity hash of its data.
#[derive(Clone, Debug, PartialEq)]
pub struct BlockWrite {
    pub eid: u64,
    pub offset: u64,
    pub data: Vec<u8>,
    pub hash: u64,
}

/// One frame of the wire protocol.
#[derive(Debug, PartialEq)]
pub enum Message {
    Ruok,
    Imok,
    HereIAm {
        version: u32,
        upstairs_id: u128,
        session_id: u128,
        gen: u64,
        read_only: bool,
        encrypted: bool,
    },
    YesItsMe {
        version: u32,
        repair_addr: String,
    },
    PromoteToActive {
        upstairs_id: u128,
        session_id: u128,
        gen: u64,
    },
    YouAreNowActive {
        upstairs_id: u128,
        session_id: u128,
        gen: u64,
    },
    YouAreNoLongerActive {
        new_upstairs_id: u128,
        new_session_id: u128,
        new_gen: u64,
    },
    UuidMismatch {
        expected_id: u128,
    },
    ReadOnlyMismatch {
        expected: bool,
    },
    EncryptedMismatch {
        expected: bool,
    },
    RegionInfoPlease,
    RegionInfo {
        region_def: RegionDefinition,
    },
    LastFlush {
        last_flush_number: u64,
    },
    LastFlushAck {
        last_flush_number: u64,
    },
    ExtentVersionsPlease,
    ExtentVersions {
        gen_numbers: Vec<u64>,
        flush_numbers: Vec<u64>,
        dirty_bits: Vec<bool>,
    },
    Write {
        upstairs_id: u128,
        session_id: u128,
        job_id: u64,
        dependencies: Vec<u64>,
        writes: Vec<BlockWrite>,
    },
    WriteUnwritten {
        upstairs_id: u128,
        session_id: u128,
        job_id: u64,
        dependencies: Vec<u64>,
        writes: Vec<BlockWrite>,
    },
    Flush {
        upstairs_id: u128,
        session_id: u128,
        job_id: u64,
        dependencies: Vec<u64>,
        flush_number: u64,
        gen_number: u64,
        snapshot_details: Option<String>,
    },
    ReadRequest {
        upstairs_id: u128,
        session_id: u128,
        job_id: u64,
        dependencies: Vec<u64>,
        requests: Vec<ReadRequest>,
    },
    WriteAck {
        upstairs_id: u128,
        session_id: u128,
        job_id: u64,
        result: Result<(), CrucibleError>,
    },
    WriteUnwrittenAck {
        upstairs_id: u128,
        session_id: u128,
        job_id: u64,
        result: Result<(), CrucibleError>,
    },
    FlushAck {
        upstairs_id: u128,
        session_id: u128,
        job_id: u64,
        result: Result<(), CrucibleError>,
    },
    ReadResponse {
        upstairs_id: u128,
        session_id: u128,
        job_id: u64,
        responses: Result<Vec<ReadResponse>, CrucibleError>,
    },
    ExtentFlush {
        repair_id: u64,
        extent_id: u64,
        client_id: u8,
        flush_number: u64,
        gen_number: u64,
    },
    ExtentClose {
        repair_id: u64,
        extent_id: u64,
    },
    ExtentRepair {
        repair_id: u64,
        extent_id: u64,
        source_client_id: u8,
        source_repair_address: String,
        dest_clients: Vec<u8>,
    },
    ExtentReopen {
        repair_id: u64,
        extent_id: u64,
    },
    RepairAckId {
        repair_id: u64,
    },
    ExtentError {
        repair_id: u64,
        extent_id: u64,
        error: CrucibleError,
    },
}

impl Message {
    /// Whether this frame is the acknowledgement of a flush job.
    pub open spec fn is_flush_ack(self) -> bool {
        self matches Message::FlushAck { .. }
    }
}

} // verus!
