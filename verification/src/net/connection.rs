//! The decisions of a connection's reading loop: which packet lengths it
//! accepts, how many packets a client may send in a second, how a
//! message's checksum is checked, and which service a connection's first
//! message chooses.
use vstd::prelude::*;
use crate::net::message::{
    HEADER_LENGTH, MessageView, NETWORK_MESSAGE_MAXSIZE, NetworkMessage, msg_wf,
    read_effect, read_number,
};
use crate::net::server::ServiceInfo;
use crate::util::{adler32, adler_checksum};
use crate::net::le::le_value;

verus! {

/// The most packets a client may send within one rate window.
pub const MAX_PACKETS_PER_SECOND: u32 = 25;

/// The length of a rate window: one second, in nanoseconds.
pub const RATE_WINDOW_NANOS: u64 = 1_000_000_000;

/// What a connection's reading loop keeps between packets: whether the next
/// message is the first, and the packets counted in the current rate window
/// with the time (in nanoseconds of a monotonic clock) it began.
#[derive(Debug, Clone, Copy, PartialEq, Eq, Structural)]
pub struct ConnState {
    pub first_message: bool,
    pub packet_count: u32,
    pub window_start_nanos: u64,
}

/// What the loop does after a packet header: close the connection, or read
/// a body of `length` bytes.
#[derive(Debug, Clone, Copy, PartialEq, Eq, Structural)]
pub enum FrameAction {
    Close,
    ReadBody { length: usize },
}

/// A state the loop can continue from: no more packets counted than the
/// window allows.
pub open spec fn conn_wf(s: ConnState) -> bool {
    s.packet_count <= MAX_PACKETS_PER_SECOND
}

/// The state and action after a packet header `header` (a two-byte
/// little-endian body length) arrives at time `now`: a length of zero or
/// past the largest body closes; a packet after a full window starts a new
/// window; a packet past the window's allowance closes.
pub open spec fn frame_step(s: ConnState, header: Seq<u8>, now: u64) -> (ConnState, FrameAction) {
    let len = header[0] as int + 256 * header[1] as int;
    if len == 0 || len > NETWORK_MESSAGE_MAXSIZE - 2 {
        (s, FrameAction::Close)
    } else if now - s.window_start_nanos >= RATE_WINDOW_NANOS {
        (
            ConnState { packet_count: 1, window_start_nanos: now, ..s },
            FrameAction::ReadBody { length: len as usize },
        )
    } else if s.packet_count + 1 > MAX_PACKETS_PER_SECOND {
        (ConnState { packet_count: (s.packet_count + 1) as u32, ..s }, FrameAction::Close)
    } else {
        (
            ConnState { packet_count: (s.packet_count + 1) as u32, ..s },
            FrameAction::ReadBody { length: len as usize },
        )
    }
}

impl ConnState {
    /// The state of a new connection, its rate window starting at time 0.
    pub fn new() -> (s: Self)
        ensures
            s == (ConnState { first_message: true, packet_count: 0, window_start_nanos: 0 }),
            conn_wf(s),
    {
        ConnState { first_message: true, packet_count: 0, window_start_nanos: 0 }
    }
}

/// Decides on a packet header (see `frame_step`); the clock reading
/// `now_nanos` is never earlier than the window's start.
pub fn on_frame(s: ConnState, header: &[u8], now_nanos: u64) -> (r: (ConnState, FrameAction))
    requires
        header@.len() == 2,
        conn_wf(s),
        s.window_start_nanos <= now_nanos,
    ensures
        r == frame_step(s, header@, now_nanos),
        r.1 is ReadBody ==> conn_wf(r.0) && r.0.window_start_nanos <= now_nanos,
{
    let len: usize = header[0] as usize + 256 * header[1] as usize;
    if len == 0 || len > NETWORK_MESSAGE_MAXSIZE - 2 {
        return (s, FrameAction::Close);
    }
    if now_nanos - s.window_start_nanos >= RATE_WINDOW_NANOS {
        return (
            ConnState { packet_count: 1, window_start_nanos: now_nanos, ..s },
            FrameAction::ReadBody { length: len },
        );
    }
    let count = s.packet_count + 1;
    if count > MAX_PACKETS_PER_SECOND {
        (ConnState { packet_count: count, ..s }, FrameAction::Close)
    } else {
        (ConnState { packet_count: count, ..s }, FrameAction::ReadBody { length: len })
    }
}

/// The message after reading its checksum (the four bytes at the cursor)
/// and whether it matches the Adler-32 checksum of the buffer from there up
/// to the end of a body of `len` bytes that follows the length header;
/// where it does not, the cursor goes back four bytes.
pub open spec fn checksum_step(m: MessageView, len: int) -> (MessageView, bool) {
    let v = read_number(m, 4);
    let m1 = read_effect(m, 4);
    let end = HEADER_LENGTH + len;
    if m1.position <= end && v == adler32(m1.buffer.subrange(m1.position, end)) {
        (m1, true)
    } else {
        (MessageView { position: m1.position - 4, ..m1 }, false)
    }
}

/// Reads and checks the checksum of a message of `packet_len` bytes (see
/// `checksum_step`).
pub fn check_checksum(msg: &mut NetworkMessage, packet_len: usize) -> (ok: bool)
    requires
        old(msg)@.position == HEADER_LENGTH,
        packet_len <= NETWORK_MESSAGE_MAXSIZE - 2,
    ensures
        msg_wf(final(msg)@),
        (final(msg)@, ok) == checksum_step(old(msg)@, packet_len as int),
{
    let received = msg.get_u32();
    let pos = msg.get_buffer_position() as usize;
    let end = 2 + packet_len;
    if pos <= end {
        let computed = adler_checksum(slice_range(msg.buffer(), pos, end));
        if received == computed {
            return true;
        }
    }
    msg.skip_bytes(-4);
    false
}

fn slice_range(bytes: &[u8], from: usize, to: usize) -> (r: &[u8])
    requires
        from <= to <= bytes@.len(),
    ensures
        r@ == bytes@.subrange(from as int, to as int),
{
    vstd::slice::slice_subrange(bytes, from, to)
}

/// For a body written after the length header, the checksum matches
/// exactly when the body's first four bytes, read as a little-endian number,
/// are the Adler-32 checksum of the rest of the body.
pub proof fn law_checksum_covers_body(m: MessageView, body: Seq<u8>)
    requires
        msg_wf(m),
        m.position == HEADER_LENGTH,
        4 <= body.len() <= NETWORK_MESSAGE_MAXSIZE - HEADER_LENGTH,
        m.buffer.subrange(HEADER_LENGTH as int, HEADER_LENGTH + body.len()) == body,
    ensures
        checksum_step(m, body.len() as int).1 == (le_value(body.take(4)) == adler32(body.skip(4))),
{
    let n = body.len() as int;
    assert(m.buffer.subrange(2, 6) =~= body.take(4));
    assert(m.buffer.subrange(6, 2 + n) =~= body.skip(4));
}

/// Whether some service wants checksummed messages.
pub open spec fn any_checksummed(svcs: Seq<ServiceInfo>) -> bool {
    exists|i: int| 0 <= i < svcs.len() && (#[trigger] svcs[i]).checksummed
}

/// The first service from index `i` on with protocol id `id` that the
/// message may use: one that wants no checksum, or any where the checksum
/// matched.
pub open spec fn matching_service(svcs: Seq<ServiceInfo>, id: u8, checksummed: bool, i: int) -> Option<
    int,
>
    decreases svcs.len() - i,
{
    if i < 0 || i >= svcs.len() {
        None
    } else if svcs[i].protocol_id == id && (!svcs[i].checksummed || checksummed) {
        Some(i)
    } else {
        matching_service(svcs, id, checksummed, i + 1)
    }
}

/// What a connection's first message decides: close, use the service at
/// index `service`, or go on with the service chosen before the message
/// came.
#[derive(Debug, Clone, Copy, PartialEq, Eq, Structural)]
pub enum FirstAction {
    Close,
    Choose { service: usize },
    Preassigned,
}

/// The message and decision after a connection's first message of `len`
/// bytes: where some service wants checksums, the checksum is read and
/// checked (see `checksum_step`); then, with no service chosen before, the
/// protocol id byte names the first matching service (see
/// `matching_service`), and with one chosen the id byte is skipped.
pub open spec fn first_message_step(
    m: MessageView,
    len: int,
    svcs: Seq<ServiceInfo>,
    preassigned: bool,
) -> (MessageView, FirstAction) {
    let (m1, checksummed) = if any_checksummed(svcs) {
        checksum_step(m, len)
    } else {
        (m, false)
    };
    if preassigned {
        (MessageView { position: m1.position + 1, ..m1 }, FirstAction::Preassigned)
    } else {
        let id = read_number(m1, 1) as u8;
        let m2 = read_effect(m1, 1);
        match matching_service(svcs, id, checksummed, 0) {
            Some(i) => (m2, FirstAction::Choose { service: i as usize }),
            None => (m2, FirstAction::Close),
        }
    }
}

fn has_checksummed(services: &[ServiceInfo]) -> (r: bool)
    ensures
        r == any_checksummed(services@),
{
    let mut i: usize = 0;
    while i < services.len()
        invariant
            i <= services@.len(),
            forall|k: int| 0 <= k < i ==> !(#[trigger] services@[k]).checksummed,
        decreases services.len() - i,
    {
        if services[i].checksummed {
            return true;
        }
        i = i + 1;
    }
    false
}

fn find_service(services: &[ServiceInfo], id: u8, checksummed: bool) -> (r: Option<usize>)
    ensures
        match matching_service(services@, id, checksummed, 0) {
            Some(i) => r == Some(i as usize),
            None => r is None,
        },
{
    let mut i: usize = 0;
    while i < services.len()
        invariant
            i <= services@.len(),
            matching_service(services@, id, checksummed, 0) == matching_service(
                services@,
                id,
                checksummed,
                i as int,
            ),
        decreases services.len() - i,
    {
        let s = services[i];
        if s.protocol_id == id && (!s.checksummed || checksummed) {
            return Some(i);
        }
        i = i + 1;
    }
    None
}

/// Decides on a connection's first message of `packet_len` bytes, its body
/// just written after the length header (see `NetworkMessage::write_body`
/// and `first_message_step`).
pub fn on_first_message(
    msg: &mut NetworkMessage,
    packet_len: usize,
    services: &[ServiceInfo],
    preassigned: bool,
) -> (r: FirstAction)
    requires
        old(msg)@.position == HEADER_LENGTH,
        packet_len <= NETWORK_MESSAGE_MAXSIZE - 2,
    ensures
        msg_wf(final(msg)@),
        (final(msg)@, r) == first_message_step(old(msg)@, packet_len as int, services@, preassigned),
{
    let mut checksummed = false;
    if has_checksummed(services) {
        checksummed = check_checksum(msg, packet_len);
    }
    if preassigned {
        msg.skip_bytes(1);
        return FirstAction::Preassigned;
    }
    let id = msg.get_byte();
    match find_service(services, id, checksummed) {
        Some(i) => FirstAction::Choose { service: i },
        None => FirstAction::Close,
    }
}

} // verus!
