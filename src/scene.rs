//! The scene-side data the bridge exchanges with the game runtime: the tag
//! components, the operations' request and response records, and the debug
//! probe's snapshot block.

use vstd::prelude::*;
use crate::brp::ClearTarget;
use crate::json::JsonValue;
use crate::text::{append_chars, append_str, chars_of, dec, decimal_chars, string_of};

verus! {

/// Marks an entity to be rendered as a primitive shape.
pub struct AxiomPrimitive {
    pub primitive_type: String,
}

/// Carries a base64-encoded asset file to the game.
pub struct AxiomRemoteAsset {
    pub filename: String,
    pub data_base64: String,
    /// A subdirectory of the asset cache.
    pub subdir: Option<String>,
}

/// Marks every entity the assistant spawned.
pub struct AxiomSpawned;

/// The game-side plugin that serves the remote protocol.
pub struct BevyAiRemotePlugin;

pub struct UploadRequest {
    pub asset_id: String,
    pub bytes: Vec<u8>,
}

pub struct ClearRequest {
    pub target: ClearTarget,
}

pub struct QueryRequest {
    pub components: Vec<String>,
}

pub struct UploadResponse {
    pub entity_id: String,
}

pub struct SpawnResponse {
    pub entity_id: String,
}

pub struct ClearResponse {
    pub entities_removed: usize,
}

pub struct QueryResponse {
    pub entities: Vec<JsonValue>,
}

pub struct PingResponse {
    pub alive: bool,
    pub methods: JsonValue,
}

/// The size of the probe's snapshot buffer.
pub const AXIOM_DEBUG_SNAPSHOT_CAPACITY: usize = 4096;

/// The block a debugger reads from the game: a frame counter, the length of
/// the snapshot, and the snapshot bytes (NUL-terminated when shorter than the buffer).
pub struct AxiomDebugProbeState {
    pub frame_counter: u64,
    pub snapshot_len: usize,
    pub snapshot_bytes: Vec<u8>,
}

impl AxiomDebugProbeState {
    /// A zeroed block.
    pub fn new() -> (r: Self)
        ensures
            r.frame_counter == 0,
            r.snapshot_len == 0,
            r.snapshot_bytes@.len() == AXIOM_DEBUG_SNAPSHOT_CAPACITY,
            forall|i: int| 0 <= i < r.snapshot_bytes@.len() ==> r.snapshot_bytes@[i] == 0,
    {
        let mut bytes: Vec<u8> = Vec::new();
        let mut i: usize = 0;
        while i < AXIOM_DEBUG_SNAPSHOT_CAPACITY
            invariant
                i <= AXIOM_DEBUG_SNAPSHOT_CAPACITY,
                bytes@.len() == i,
                forall|j: int| 0 <= j < i ==> bytes@[j] == 0,
            decreases AXIOM_DEBUG_SNAPSHOT_CAPACITY - i,
        {
            bytes.push(0);
            i += 1;
        }
        AxiomDebugProbeState { frame_counter: 0, snapshot_len: 0, snapshot_bytes: bytes }
    }

    /// Copies as much of `snapshot` as fits, ends it with a NUL when there is
    /// room, and records its length.
    pub fn write_snapshot(&mut self, snapshot: &[u8]) -> (r: usize)
        requires
            old(self).snapshot_bytes@.len() == AXIOM_DEBUG_SNAPSHOT_CAPACITY,
        ensures
            r == if snapshot@.len() < AXIOM_DEBUG_SNAPSHOT_CAPACITY {
                snapshot@.len() as usize
            } else {
                AXIOM_DEBUG_SNAPSHOT_CAPACITY
            },
            final(self).snapshot_len == r,
            final(self).frame_counter == old(self).frame_counter,
            final(self).snapshot_bytes@.len() == AXIOM_DEBUG_SNAPSHOT_CAPACITY,
            final(self).snapshot_bytes@.subrange(0, r as int) == snapshot@.subrange(0, r as int),
            r < AXIOM_DEBUG_SNAPSHOT_CAPACITY ==> final(self).snapshot_bytes@[r as int] == 0,
    {
        let n = if snapshot.len() < AXIOM_DEBUG_SNAPSHOT_CAPACITY {
            snapshot.len()
        } else {
            AXIOM_DEBUG_SNAPSHOT_CAPACITY
        };
        let mut i: usize = 0;
        while i < n
            invariant
                n <= snapshot@.len(),
                n <= AXIOM_DEBUG_SNAPSHOT_CAPACITY,
                i <= n,
                self.snapshot_bytes@.len() == AXIOM_DEBUG_SNAPSHOT_CAPACITY,
                self.frame_counter == old(self).frame_counter,
                forall|j: int| 0 <= j < i ==> self.snapshot_bytes@[j] == snapshot@[j],
            decreases n - i,
        {
            self.snapshot_bytes.set(i, snapshot[i]);
            i += 1;
        }
        if n < AXIOM_DEBUG_SNAPSHOT_CAPACITY {
            self.snapshot_bytes.set(n, 0);
        }
        self.snapshot_len = n;
        assert(self.snapshot_bytes@.subrange(0, n as int) =~= snapshot@.subrange(0, n as int));
        n
    }

    /// Advances the frame counter (wrapping) and returns the new frame index.
    pub fn next_frame(&mut self) -> (r: u64)
        ensures
            r == if old(self).frame_counter < u64::MAX {
                (old(self).frame_counter + 1) as u64
            } else {
                0
            },
            final(self).frame_counter == r,
            final(self).snapshot_len == old(self).snapshot_len,
            final(self).snapshot_bytes == old(self).snapshot_bytes,
    {
        self.frame_counter = if self.frame_counter < u64::MAX {
            self.frame_counter + 1
        } else {
            0
        };
        self.frame_counter
    }
}

/// The snapshot text a safe point publishes.
pub open spec fn probe_snapshot(frame_index: u64, entity_count: u64) -> Seq<char> {
    "{\"frame_index\":"@ + dec(frame_index as nat) + ",\"entity_count\":"@ + dec(
        entity_count as nat,
    ) + ",\"resource_summaries\":[],\"warnings\":[\"resource summaries unavailable in debug probe\"]}"@
}

/// The JSON text of a probe snapshot for a frame.
pub fn probe_snapshot_text(frame_index: u64, entity_count: u64) -> (r: String)
    ensures
        r@ == probe_snapshot(frame_index, entity_count),
{
    let mut m = chars_of("{\"frame_index\":");
    let a = decimal_chars(frame_index);
    append_chars(&mut m, &a);
    append_str(&mut m, ",\"entity_count\":");
    let b = decimal_chars(entity_count);
    append_chars(&mut m, &b);
    append_str(
        &mut m,
        ",\"resource_summaries\":[],\"warnings\":[\"resource summaries unavailable in debug probe\"]}",
    );
    string_of(&m)
}

} // verus!
