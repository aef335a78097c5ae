use vstd::prelude::*;
use crate::policy::ExecEvent;

verus! {

/// Size of one execution record as the kernel probe writes it to the ring buffer
/// (the C layout of its record: three 32-bit ids, padding, a 64-bit timestamp, a 16-byte
/// process name, a 256-byte file name, a 32-bit argument count and tail padding).
pub const EXEC_RECORD_SIZE: usize = 304;

/// Offsets of the fields within a record.
pub const PID_AT: usize = 0;
pub const UID_AT: usize = 4;
pub const GID_AT: usize = 8;
pub const TIMESTAMP_AT: usize = 16;
pub const COMM_AT: usize = 24;
pub const COMM_LEN: usize = 16;
pub const FILENAME_AT: usize = 40;
pub const FILENAME_LEN: usize = 256;
pub const ARGC_AT: usize = 296;

/// The little-endian 32-bit value at `at`.
pub open spec fn le_u32(b: Seq<u8>, at: int) -> nat {
    (b[at] + 256 * b[at + 1] + 65536 * b[at + 2] + 16777216 * b[at + 3]) as nat
}

/// The little-endian 64-bit value at `at`.
pub open spec fn le_u64(b: Seq<u8>, at: int) -> nat {
    (le_u32(b, at) + 4294967296 * le_u32(b, at + 4)) as nat
}

/// Reads the little-endian 32-bit value at `at`.
pub fn read_u32(b: &[u8], at: usize) -> (v: u32)
    requires
        at + 4 <= b@.len(),
    ensures
        v as nat == le_u32(b@, at as int),
{
    let b0 = b[at] as u32;
    let b1 = b[at + 1] as u32;
    let b2 = b[at + 2] as u32;
    let b3 = b[at + 3] as u32;
    b0 + 256 * b1 + 65536 * b2 + 16777216 * b3
}

/// Reads the little-endian 64-bit value at `at`.
pub fn read_u64(b: &[u8], at: usize) -> (v: u64)
    requires
        at + 8 <= b@.len(),
    ensures
        v as nat == le_u64(b@, at as int),
{
    let blen = b.len();
    assert(at + 4 <= blen);
    let lo = read_u32(b, at) as u64;
    let hi = read_u32(b, at + 4) as u64;
    lo + 4294967296 * hi
}

/// Copies `b[at..at + n]`.
pub fn read_bytes(b: &[u8], at: usize, n: usize) -> (v: Vec<u8>)
    requires
        at + n <= b@.len(),
    ensures
        v@ == b@.subrange(at as int, at + n),
{
    let blen = b.len();
    let mut v: Vec<u8> = Vec::new();
    let mut i: usize = 0;
    while i < n
        invariant
            blen == b@.len(),
            at + n <= b@.len(),
            i <= n,
            v@ == b@.subrange(at as int, at + i),
        decreases n - i,
    {
        v.push(b[at + i]);
        i = i + 1;
        assert(v@ =~= b@.subrange(at as int, at + i));
    }
    v
}

/// Decodes one ring-buffer record of the kernel probe into an event with a zero score.
/// Returns `None` when the record is shorter than `EXEC_RECORD_SIZE`.
pub fn parse_exec_record(b: &[u8]) -> (r: Option<ExecEvent>)
    ensures
        r is Some <==> b@.len() >= EXEC_RECORD_SIZE,
        r matches Some(e) ==> {
            &&& e.pid as nat == le_u32(b@, PID_AT as int)
            &&& e.uid as nat == le_u32(b@, UID_AT as int)
            &&& e.gid as nat == le_u32(b@, GID_AT as int)
            &&& e.timestamp_ns as nat == le_u64(b@, TIMESTAMP_AT as int)
            &&& e.comm@ == b@.subrange(COMM_AT as int, COMM_AT + COMM_LEN)
            &&& e.filename@ == b@.subrange(FILENAME_AT as int, FILENAME_AT + FILENAME_LEN)
            &&& e.argc as nat == le_u32(b@, ARGC_AT as int)
            &&& e.risk_score == 0
        },
{
    if b.len() < EXEC_RECORD_SIZE {
        return None;
    }
    Some(
        ExecEvent {
            pid: read_u32(b, PID_AT),
            uid: read_u32(b, UID_AT),
            gid: read_u32(b, GID_AT),
            timestamp_ns: read_u64(b, TIMESTAMP_AT),
            comm: read_bytes(b, COMM_AT, COMM_LEN),
            filename: read_bytes(b, FILENAME_AT, FILENAME_LEN),
            argc: read_u32(b, ARGC_AT),
            risk_score: 0,
        },
    )
}

} // verus!
