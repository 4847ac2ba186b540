//! The record that the kernel probes ("sensory tentacles") hand to user space
//! through the ring buffer, and what each probe puts in it.
//!
//! On the wire a record takes 92 bytes (`repr(C)`, little-endian): event type,
//! pid and uid as `u32`, then 16 bytes of command and 64 bytes of payload.
use vstd::prelude::*;
use crate::header::{
    le_u32_at, le_u32_bytes, lemma_le_u32_roundtrip, pow256, push_le_u32,
    read_le_u32,
};

verus! {

/// A file was opened (`sys_enter_openat`).
pub const EVENT_TYPE_FILE_OPEN: u32 = 1;

/// A process sent on a TCP socket (`tcp_sendmsg`).
pub const EVENT_TYPE_NET_SEND: u32 = 2;

/// A process executed a program (`sched_process_exec`).
pub const EVENT_TYPE_PROC_EXEC: u32 = 3;

/// Number of bytes a `KernelEvent` occupies in the ring buffer.
pub const KERNEL_EVENT_SIZE: usize = 92;

/// One event observed in the kernel.
#[derive(Clone, Copy)]
pub struct KernelEvent {
    pub event_type: u32,
    pub pid: u32,
    pub uid: u32,
    pub command: [u8; 16],
    pub payload: [u8; 64],
}

/// The process id part (the upper 32 bits) of a `pid_tgid` value as the
/// kernel's `bpf_get_current_pid_tgid` returns it.
pub open spec fn spec_pid_of(pid_tgid: u64) -> u32 {
    (pid_tgid / 0x1_0000_0000) as u32
}

/// `e` is the event that the first `KERNEL_EVENT_SIZE` bytes of `b` hold.
pub open spec fn event_matches(e: KernelEvent, b: Seq<u8>) -> bool {
    &&& b.len() >= KERNEL_EVENT_SIZE
    &&& e.event_type == le_u32_at(b, 0)
    &&& e.pid == le_u32_at(b, 4)
    &&& e.uid == le_u32_at(b, 8)
    &&& e.command@ == b.subrange(12, 28)
    &&& e.payload@ == b.subrange(28, 92)
}

/// The bytes that represent `e` in the ring buffer.
pub open spec fn event_bytes(e: KernelEvent) -> Seq<u8> {
    le_u32_bytes(e.event_type) + le_u32_bytes(e.pid) + le_u32_bytes(e.uid) + e.command@
        + e.payload@
}

/// The process id part of a `pid_tgid` value: `pid_tgid >> 32`.
pub fn pid_of(pid_tgid: u64) -> (pid: u32)
    ensures
        pid == spec_pid_of(pid_tgid),
{
    let p = (pid_tgid >> 32u64) as u32;
    assert(pid_tgid >> 32u64 == pid_tgid / 0x1_0000_0000) by (bit_vector);
    p
}

/// The event a probe records for the current task.
fn probe_event(event_type: u32, pid_tgid: u64) -> (e: KernelEvent)
    ensures
        e.event_type == event_type,
        e.pid == spec_pid_of(pid_tgid),
        e.uid == 0,
        forall|i: int| 0 <= i < 16 ==> e.command[i] == 0,
        forall|i: int| 0 <= i < 64 ==> e.payload[i] == 0,
{
    let command: [u8; 16] = [0u8; 16];
    let payload: [u8; 64] = [0u8; 64];
    KernelEvent { event_type, pid: pid_of(pid_tgid), uid: 0, command, payload }
}

/// What the file tentacle records when a file is opened, given the
/// current `pid_tgid`.
pub fn octopus_file_open(pid_tgid: u64) -> (e: KernelEvent)
    ensures
        e.event_type == EVENT_TYPE_FILE_OPEN,
        e.pid == spec_pid_of(pid_tgid),
        e.uid == 0,
        forall|i: int| 0 <= i < 16 ==> e.command[i] == 0,
        forall|i: int| 0 <= i < 64 ==> e.payload[i] == 0,
{
    probe_event(EVENT_TYPE_FILE_OPEN, pid_tgid)
}

/// What the network tentacle records when data is sent on TCP, given the
/// current `pid_tgid`.
pub fn octopus_net_send(pid_tgid: u64) -> (e: KernelEvent)
    ensures
        e.event_type == EVENT_TYPE_NET_SEND,
        e.pid == spec_pid_of(pid_tgid),
        e.uid == 0,
        forall|i: int| 0 <= i < 16 ==> e.command[i] == 0,
        forall|i: int| 0 <= i < 64 ==> e.payload[i] == 0,
{
    probe_event(EVENT_TYPE_NET_SEND, pid_tgid)
}

/// What the process tentacle records when a program is executed, given the
/// current `pid_tgid`.
pub fn octopus_proc_exec(pid_tgid: u64) -> (e: KernelEvent)
    ensures
        e.event_type == EVENT_TYPE_PROC_EXEC,
        e.pid == spec_pid_of(pid_tgid),
        e.uid == 0,
        forall|i: int| 0 <= i < 16 ==> e.command[i] == 0,
        forall|i: int| 0 <= i < 64 ==> e.payload[i] == 0,
{
    probe_event(EVENT_TYPE_PROC_EXEC, pid_tgid)
}

impl KernelEvent {
    /// The bytes of this event as it is laid out in the ring buffer.
    pub fn to_bytes(&self) -> (b: Vec<u8>)
        ensures
            b@ == event_bytes(*self),
            b@.len() == KERNEL_EVENT_SIZE,
    {
        let mut b: Vec<u8> = Vec::new();
        push_le_u32(&mut b, self.event_type);
        push_le_u32(&mut b, self.pid);
        push_le_u32(&mut b, self.uid);
        let ghost prefix = b@;
        for i in 0..16
            invariant
                b@ =~= prefix + self.command@.take(i as int),
        {
            b.push(self.command[i]);
            assert(b@ =~= prefix + self.command@.take(i + 1));
        }
        assert(self.command@.take(16) =~= self.command@);
        let ghost prefix2 = b@;
        for i in 0..64
            invariant
                b@ =~= prefix2 + self.payload@.take(i as int),
        {
            b.push(self.payload[i]);
            assert(b@ =~= prefix2 + self.payload@.take(i + 1));
        }
        assert(self.payload@.take(64) =~= self.payload@);
        b
    }

    /// Reads the event at the start of a ring-buffer item; `None` when the
    /// item is shorter than an event.
    pub fn from_bytes(b: &[u8]) -> (r: Option<KernelEvent>)
        ensures
            match r {
                Some(e) => event_matches(e, b@),
                None => b@.len() < KERNEL_EVENT_SIZE,
            },
    {
        if b.len() < KERNEL_EVENT_SIZE {
            return None;
        }
        let mut command: [u8; 16] = [0u8; 16];
        for i in 0..16
            invariant
                b@.len() >= KERNEL_EVENT_SIZE,
                forall|j: int| 0 <= j < i ==> command[j] == b@[12 + j],
        {
            command[i] = b[12 + i];
        }
        let mut payload: [u8; 64] = [0u8; 64];
        for i in 0..64
            invariant
                b@.len() >= KERNEL_EVENT_SIZE,
                forall|j: int| 0 <= j < i ==> payload[j] == b@[28 + j],
        {
            payload[i] = b[28 + i];
        }
        assert(command@ =~= b@.subrange(12, 28));
        assert(payload@ =~= b@.subrange(28, 92));
        Some(
            KernelEvent {
                event_type: read_le_u32(b, 0),
                pid: read_le_u32(b, 4),
                uid: read_le_u32(b, 8),
                command,
                payload,
            },
        )
    }
}

/// An event written into the ring buffer is read back unchanged, whatever
/// follows it: its bytes match exactly that event.
pub proof fn lemma_event_roundtrip(e: KernelEvent, rest: Seq<u8>)
    ensures
        event_matches(e, event_bytes(e) + rest),
        forall|e2: KernelEvent| event_matches(e2, event_bytes(e) + rest) ==> e2 == e,
{
    let t = le_u32_bytes(e.event_type);
    let p = le_u32_bytes(e.pid);
    let u = le_u32_bytes(e.uid);
    let c = e.command@;
    let d = e.payload@;
    let b = event_bytes(e) + rest;
    assert(b =~= Seq::<u8>::empty() + t + (p + u + c + d + rest));
    lemma_le_u32_roundtrip(e.event_type, Seq::empty(), p + u + c + d + rest);
    assert(b =~= t + p + (u + c + d + rest));
    lemma_le_u32_roundtrip(e.pid, t, u + c + d + rest);
    assert(b =~= (t + p) + u + (c + d + rest));
    lemma_le_u32_roundtrip(e.uid, t + p, c + d + rest);
    assert(b.subrange(12, 28) =~= c);
    assert(b.subrange(28, 92) =~= d);
    assert forall|e2: KernelEvent| event_matches(e2, b) implies e2 == e by {
        broadcast use vstd::array::axiom_array_ext_equal;

        assert(e2.command =~= e.command);
        assert(e2.payload =~= e.payload);
    }
}

/// The pid is the upper half of `pid_tgid`: the `pid_tgid` lies between
/// `pid * 2^32` and `(pid + 1) * 2^32`, the thread group id being what is
/// left below.
pub proof fn lemma_pid_is_upper_half(pid_tgid: u64)
    ensures
        spec_pid_of(pid_tgid) as int * 0x1_0000_0000 <= pid_tgid,
        pid_tgid < (spec_pid_of(pid_tgid) as int + 1) * 0x1_0000_0000,
{
}

/// A ring-buffer record is laid out in `repr(C)` field order, each `u32`
/// least significant byte first: event type in bytes 0..4, pid in 4..8, uid
/// in 8..12, command in 12..28, payload in 28..92. Whatever event matches a
/// run of bytes holds exactly these values.
pub proof fn lemma_event_field_offsets(e: KernelEvent, b: Seq<u8>)
    requires
        event_matches(e, b),
    ensures
        b.len() >= 92,
        e.event_type == b[0] + 256 * b[1] + 65536 * b[2] + 16777216 * b[3],
        e.pid == b[4] + 256 * b[5] + 65536 * b[6] + 16777216 * b[7],
        e.uid == b[8] + 256 * b[9] + 65536 * b[10] + 16777216 * b[11],
        forall|i: int| 0 <= i < 16 ==> e.command[i] == #[trigger] b[12 + i],
        forall|i: int| 0 <= i < 64 ==> e.payload[i] == #[trigger] b[28 + i],
{
    assert forall|i: int| 0 <= i < 16 implies e.command[i] == #[trigger] b[12 + i] by {
        assert(e.command@[i] == b.subrange(12, 28)[i]);
    }
    assert forall|i: int| 0 <= i < 64 implies e.payload[i] == #[trigger] b[28 + i] by {
        assert(e.payload@[i] == b.subrange(28, 92)[i]);
    }
}

/// Writing an event puts each field where `repr(C)` puts it, least
/// significant byte first: 92 bytes, event type at 0, pid at 4, uid at 8,
/// command in 12..28, payload in 28..92.
pub proof fn lemma_event_bytes_layout(e: KernelEvent)
    ensures
        KERNEL_EVENT_SIZE == 92,
        event_bytes(e).len() == 92,
        forall|i: int|
            0 <= i < 4 ==> {
                &&& #[trigger] event_bytes(e)[i] == (e.event_type as int / pow256(i)) % 256
                &&& event_bytes(e)[4 + i] == (e.pid as int / pow256(i)) % 256
                &&& event_bytes(e)[8 + i] == (e.uid as int / pow256(i)) % 256
            },
        forall|i: int| 0 <= i < 16 ==> #[trigger] event_bytes(e)[12 + i] == e.command[i],
        forall|i: int| 0 <= i < 64 ==> #[trigger] event_bytes(e)[28 + i] == e.payload[i],
{
    let b = event_bytes(e);
    assert forall|i: int| 0 <= i < 4 implies {
        &&& #[trigger] b[i] == (e.event_type as int / pow256(i)) % 256
        &&& b[4 + i] == (e.pid as int / pow256(i)) % 256
        &&& b[8 + i] == (e.uid as int / pow256(i)) % 256
    } by {
        lemma_u32_byte(e.event_type, i);
        lemma_u32_byte(e.pid, i);
        lemma_u32_byte(e.uid, i);
    }
}

/// Byte `i` of the little-endian bytes of `v` is `(v / 256^i) % 256`.
proof fn lemma_u32_byte(v: u32, i: int)
    requires
        0 <= i < 4,
    ensures
        le_u32_bytes(v)[i] == (v as int / pow256(i)) % 256,
{
    assert(v / 16777216 < 256) by (nonlinear_arith);
}

} // verus!
