//! The incoming network message: a fixed-size byte buffer with a read/write
//! position and a body length, read and written in little-endian order.
use vstd::prelude::*;
use crate::net::le::{
    le_bytes, le_read_u16, le_read_u32, le_read_u64, le_value, le_write_u16, le_write_u32,
    le_write_u64, lemma_le_bytes_len, lemma_le_roundtrip, byte_range, lemma_byte_ranges, splice,
};

verus! {

/// Size of every network message buffer.
pub const NETWORK_MESSAGE_MAXSIZE: usize = 65500;

/// Where the body starts in the buffer.
pub const INITIAL_BUFFER_POSITION: u16 = 8;
/// Size of the length header.
pub const HEADER_LENGTH: usize = 2;
/// Size of the checksum that precedes an encrypted body.
pub const CHECKSUM_LENGTH: usize = 4;
/// Block size of the cipher.
pub const XTEA_MULTIPLE: usize = 8;
/// Largest body a message can carry.
pub const MAX_BODY_LENGTH: usize = 65486;
/// Largest body a protocol handler may write.
pub const MAX_PROTOCOL_BODY_LENGTH: usize = 65476;
/// Longest byte string that `add_bytes` and `add_string` accept.
pub const MAX_STRING_LENGTH: usize = 8192;

/// A map position as it travels on the wire.
#[derive(Debug, Clone, Copy, PartialEq, Eq, Structural, Default)]
pub struct Position {
    pub x: u16,
    pub y: u16,
    pub z: u8,
}

/// Read/write bookkeeping of a message.
#[derive(Debug, Clone, Copy, PartialEq, Eq, Structural)]
pub struct NetworkMessageInfo {
    length: u16,
    position: u16,
    overrun: bool,
}

impl View for NetworkMessageInfo {
    /// Body length, cursor and overrun flag.
    type V = (u16, u16, bool);

    closed spec fn view(&self) -> (u16, u16, bool) {
        (self.length, self.position, self.overrun)
    }
}

impl NetworkMessageInfo {
    /// The bookkeeping of an empty message: no body, positioned at the body start.
    pub fn new() -> (info: Self)
        ensures
            info@ == (0u16, INITIAL_BUFFER_POSITION, false),
    {
        NetworkMessageInfo { length: 0, position: INITIAL_BUFFER_POSITION, overrun: false }
    }
}

impl Default for NetworkMessageInfo {
    fn default() -> (info: Self)
        ensures
            info@ == (0u16, INITIAL_BUFFER_POSITION, false),
    {
        Self::new()
    }
}

/// The abstract state of a message: body length, cursor, overrun flag and
/// the whole buffer.
pub ghost struct MessageView {
    pub length: int,
    pub position: int,
    pub overrun: bool,
    pub buffer: Seq<u8>,
}

/// A message buffer of `NETWORK_MESSAGE_MAXSIZE` bytes.
#[derive(Debug)]
pub struct NetworkMessage {
    info: NetworkMessageInfo,
    buffer: Vec<u8>,
}

impl View for NetworkMessage {
    type V = MessageView;

    closed spec fn view(&self) -> MessageView {
        MessageView {
            length: self.info.length as int,
            position: self.info.position as int,
            overrun: self.info.overrun,
            buffer: self.buffer@,
        }
    }
}

/// A well-formed message state: a full buffer and a cursor inside it.
pub open spec fn msg_wf(m: MessageView) -> bool {
    &&& m.buffer.len() == NETWORK_MESSAGE_MAXSIZE
    &&& 0 <= m.position <= NETWORK_MESSAGE_MAXSIZE
    &&& 0 <= m.length <= u16::MAX
}

/// Whether `size` more bytes fit in the body at the cursor.
pub open spec fn msg_can_add(m: MessageView, size: int) -> bool {
    size + m.position < MAX_BODY_LENGTH
}

/// Whether `size` bytes can be read at the cursor without passing the body's end.
pub open spec fn msg_can_read(m: MessageView, size: int) -> bool {
    &&& m.position + size <= m.length + INITIAL_BUFFER_POSITION
    &&& size < NETWORK_MESSAGE_MAXSIZE - m.position
}

/// The state after an attempt to read `size` bytes: the cursor advances, or
/// the overrun flag is raised and nothing else changes.
pub open spec fn read_effect(m: MessageView, size: int) -> MessageView {
    if msg_can_read(m, size) {
        MessageView { position: m.position + size, ..m }
    } else {
        MessageView { overrun: true, ..m }
    }
}

/// The `size` bytes at the cursor.
pub open spec fn read_window(m: MessageView, size: int) -> Seq<u8> {
    m.buffer.subrange(m.position, m.position + size)
}

/// The number read from `size` bytes at the cursor, or 0 when they cannot be read.
pub open spec fn read_number(m: MessageView, size: int) -> nat {
    if msg_can_read(m, size) {
        le_value(read_window(m, size))
    } else {
        0
    }
}

/// The state after writing `bytes` at the cursor: the bytes replace the
/// buffer's window, the cursor and the length advance by their count; when
/// they do not fit nothing changes.
pub open spec fn write_effect(m: MessageView, bytes: Seq<u8>) -> MessageView {
    if msg_can_add(m, bytes.len() as int) {
        MessageView {
            buffer: splice(m.buffer, m.position, bytes),
            position: m.position + bytes.len(),
            length: m.length + bytes.len(),
            ..m
        }
    } else {
        m
    }
}

/// Writing `size` bytes does not overflow the 16-bit length.
pub open spec fn length_room(m: MessageView, size: int) -> bool {
    msg_can_add(m, size) ==> m.length + size <= u16::MAX
}

/// The state after `get_string`: the prefix (when one is read) and the string
/// bytes are consumed.
pub open spec fn string_read_effect(m: MessageView, given_len: Option<u16>) -> MessageView {
    let (m1, len) = match given_len {
        Some(l) => (m, l as int),
        None => (read_effect(m, 2), read_number(m, 2) as int),
    };
    read_effect(m1, len)
}

/// The bytes that `get_string` returns.
pub open spec fn string_read_value(m: MessageView, given_len: Option<u16>) -> Seq<u8> {
    let (m1, len) = match given_len {
        Some(l) => (m, l as int),
        None => (read_effect(m, 2), read_number(m, 2) as int),
    };
    if msg_can_read(m1, len) {
        read_window(m1, len)
    } else {
        Seq::empty()
    }
}

/// The wire form of a string: its length in two bytes, then its bytes.
pub open spec fn string_bytes(s: Seq<u8>) -> Seq<u8> {
    le_bytes(s.len(), 2) + s
}

/// The wire form of a position: x and y in two bytes each, then z.
pub open spec fn position_bytes(p: Position) -> Seq<u8> {
    le_bytes(p.x as nat, 2) + le_bytes(p.y as nat, 2) + seq![p.z]
}

impl NetworkMessage {
    #[verifier::type_invariant]
    spec fn inv(self) -> bool {
        &&& self.buffer@.len() == NETWORK_MESSAGE_MAXSIZE
        &&& self.info.position <= NETWORK_MESSAGE_MAXSIZE
    }

    /// An empty message: a zeroed buffer, no body, the cursor at the body start.
    pub fn new() -> (msg: Self)
        ensures
            msg_wf(msg@),
            msg@.length == 0,
            msg@.position == INITIAL_BUFFER_POSITION,
            !msg@.overrun,
            msg@.buffer == Seq::new(NETWORK_MESSAGE_MAXSIZE as nat, |i: int| 0u8),
    {
        let buffer = vec![0u8; NETWORK_MESSAGE_MAXSIZE];
        assert(buffer@ =~= Seq::new(NETWORK_MESSAGE_MAXSIZE as nat, |i: int| 0u8));
        NetworkMessage { info: NetworkMessageInfo::new(), buffer }
    }

    /// Clears the bookkeeping: no body, the cursor at the body start; the
    /// buffer keeps its bytes.
    pub fn reset(&mut self)
        ensures
            msg_wf(final(self)@),
            final(self)@ == (MessageView {
                length: 0,
                position: INITIAL_BUFFER_POSITION as int,
                overrun: false,
                buffer: old(self)@.buffer,
            }),
    {
        proof {
            use_type_invariant(&*self);
        }
        self.info = NetworkMessageInfo::new();
    }

    fn can_add(&self, size: usize) -> (ok: bool)
        requires
            size <= u16::MAX,
        ensures
            ok == msg_can_add(self@, size as int),
    {
        size + (self.info.position as usize) < MAX_BODY_LENGTH
    }

    fn can_read(&mut self, size: usize) -> (ok: bool)
        requires
            size <= u16::MAX,
        ensures
            ok == msg_can_read(old(self)@, size as int),
            ok ==> final(self)@ == old(self)@,
            !ok ==> final(self)@ == (MessageView { overrun: true, ..old(self)@ }),
    {
        proof {
            use_type_invariant(&*self);
        }
        let position = self.info.position as usize;
        let length = self.info.length as usize;
        if position + size > length + (INITIAL_BUFFER_POSITION as usize) || size
            >= NETWORK_MESSAGE_MAXSIZE - position {
            self.info.overrun = true;
            return false;
        }
        true
    }

    /// Reads one byte at the cursor; past the body's end it gives 0 and
    /// raises the overrun flag.
    pub fn get_byte(&mut self) -> (value: u8)
        ensures
            msg_wf(final(self)@),
            value as nat == read_number(old(self)@, 1),
            final(self)@ == read_effect(old(self)@, 1),
    {
        proof {
            use_type_invariant(&*self);
        }
        if !self.can_read(1) {
            return 0;
        }
        proof {
            use_type_invariant(&*self);
            reveal_with_fuel(le_value, 2);
            assert(read_window(self@, 1).drop_first() =~= Seq::<u8>::empty());
        }
        let value = self.buffer[self.info.position as usize];
        self.info.position = self.info.position + 1;
        value
    }

    /// Steps the cursor back one byte and returns the byte there.
    pub fn get_previous_byte(&mut self) -> (value: u8)
        requires
            old(self)@.position >= 1,
        ensures
            msg_wf(final(self)@),
            value == old(self)@.buffer[old(self)@.position - 1],
            final(self)@ == (MessageView { position: old(self)@.position - 1, ..old(self)@ }),
    {
        proof {
            use_type_invariant(&*self);
        }
        proof {
            use_type_invariant(&*self);
        }
        self.info.position = self.info.position - 1;
        self.buffer[self.info.position as usize]
    }

    /// Reads a little-endian `u16` at the cursor; past the body's end it gives
    /// 0 and raises the overrun flag.
    pub fn get_u16(&mut self) -> (value: u16)
        ensures
            msg_wf(final(self)@),
            value as nat == read_number(old(self)@, 2),
            final(self)@ == read_effect(old(self)@, 2),
    {
        proof {
            use_type_invariant(&*self);
        }
        if !self.can_read(2) {
            return 0;
        }
        proof {
            use_type_invariant(&*self);
        }
        let value = le_read_u16(self.buffer.as_slice(), self.info.position as usize);
        self.info.position = self.info.position + 2;
        value
    }

    /// Reads a little-endian `u32` at the cursor; past the body's end it gives
    /// 0 and raises the overrun flag.
    pub fn get_u32(&mut self) -> (value: u32)
        ensures
            msg_wf(final(self)@),
            value as nat == read_number(old(self)@, 4),
            final(self)@ == read_effect(old(self)@, 4),
    {
        proof {
            use_type_invariant(&*self);
        }
        if !self.can_read(4) {
            return 0;
        }
        proof {
            use_type_invariant(&*self);
        }
        let value = le_read_u32(self.buffer.as_slice(), self.info.position as usize);
        self.info.position = self.info.position + 4;
        value
    }

    /// Reads a little-endian `u64` at the cursor; past the body's end it gives
    /// 0 and raises the overrun flag.
    pub fn get_u64(&mut self) -> (value: u64)
        ensures
            msg_wf(final(self)@),
            value as nat == read_number(old(self)@, 8),
            final(self)@ == read_effect(old(self)@, 8),
    {
        proof {
            use_type_invariant(&*self);
        }
        if !self.can_read(8) {
            return 0;
        }
        proof {
            use_type_invariant(&*self);
        }
        let value = le_read_u64(self.buffer.as_slice(), self.info.position as usize);
        self.info.position = self.info.position + 8;
        value
    }

    /// Reads a byte string: `string_len` bytes, or, when none is given, as
    /// many bytes as the `u16` prefix read first says. A string that passes
    /// the body's end gives an empty result and raises the overrun flag.
    pub fn get_string(&mut self, string_len: Option<u16>) -> (value: Vec<u8>)
        ensures
            msg_wf(final(self)@),
            value@ == string_read_value(old(self)@, string_len),
            final(self)@ == string_read_effect(old(self)@, string_len),
    {
        proof {
            use_type_invariant(&*self);
        }
        let len: u16 = match string_len {
            Some(l) => l,
            None => self.get_u16(),
        };
        let string_len = len as usize;
        if !self.can_read(string_len) {
            return Vec::new();
        }
        proof {
            use_type_invariant(&*self);
        }
        let start = self.info.position as usize;
        let end = start + string_len;
        let mut value: Vec<u8> = Vec::new();
        let mut i = start;
        while i < end
            invariant
                start <= i <= end,
                end <= self.buffer@.len(),
                value@ =~= self.buffer@.subrange(start as int, i as int),
            decreases end - i,
        {
            value.push(self.buffer[i]);
            i = i + 1;
        }
        self.info.position = self.info.position + len;
        value
    }

    /// Reads a position: x, y and z in that order.
    pub fn get_position(&mut self) -> (p: Position)
        ensures
            msg_wf(final(self)@),
            ({
                let m1 = read_effect(old(self)@, 2);
                let m2 = read_effect(m1, 2);
                &&& p.x as nat == read_number(old(self)@, 2)
                &&& p.y as nat == read_number(m1, 2)
                &&& p.z as nat == read_number(m2, 1)
                &&& final(self)@ == read_effect(m2, 1)
            }),
    {
        proof {
            use_type_invariant(&*self);
        }
        let x = self.get_u16();
        let y = self.get_u16();
        let z = self.get_byte();
        Position { x, y, z }
    }

    /// Moves the cursor by `count` bytes.
    pub fn skip_bytes(&mut self, count: i16)
        requires
            0 <= old(self)@.position + count <= NETWORK_MESSAGE_MAXSIZE,
        ensures
            msg_wf(final(self)@),
            final(self)@ == (MessageView { position: old(self)@.position + count, ..old(self)@ }),
    {
        proof {
            use_type_invariant(&*self);
        }
        let next: i32 = self.info.position as i32 + count as i32;
        self.info.position = next as u16;
    }

    /// Writes one byte at the cursor; when it does not fit nothing changes.
    pub fn add_byte(&mut self, value: u8)
        requires
            length_room(old(self)@, 1),
        ensures
            msg_wf(final(self)@),
            final(self)@ == write_effect(old(self)@, seq![value]),
    {
        proof {
            use_type_invariant(&*self);
        }
        if !self.can_add(1) {
            return;
        }
        proof {
            use_type_invariant(&*self);
        }
        let pos = self.info.position as usize;
        self.buffer[pos] = value;
        self.info.position = self.info.position + 1;
        self.info.length = self.info.length + 1;
        assert(self.buffer@ =~= splice(old(self)@.buffer, pos as int, seq![value]));
    }

    /// Writes a little-endian `u16` at the cursor; when it does not fit
    /// nothing changes.
    pub fn add_u16(&mut self, value: u16)
        requires
            length_room(old(self)@, 2),
        ensures
            msg_wf(final(self)@),
            final(self)@ == write_effect(old(self)@, le_bytes(value as nat, 2)),
    {
        proof {
            use_type_invariant(&*self);
        }
        proof {
            lemma_le_bytes_len(value as nat, 2);
        }
        if !self.can_add(2) {
            return;
        }
        proof {
            use_type_invariant(&*self);
        }
        let pos = self.info.position as usize;
        le_write_u16(&mut self.buffer, pos, value);
        self.info.position = self.info.position + 2;
        self.info.length = self.info.length + 2;
    }

    /// Writes a little-endian `u32` at the cursor; when it does not fit
    /// nothing changes.
    pub fn add_u32(&mut self, value: u32)
        requires
            length_room(old(self)@, 4),
        ensures
            msg_wf(final(self)@),
            final(self)@ == write_effect(old(self)@, le_bytes(value as nat, 4)),
    {
        proof {
            use_type_invariant(&*self);
        }
        proof {
            lemma_le_bytes_len(value as nat, 4);
        }
        if !self.can_add(4) {
            return;
        }
        proof {
            use_type_invariant(&*self);
        }
        let pos = self.info.position as usize;
        le_write_u32(&mut self.buffer, pos, value);
        self.info.position = self.info.position + 4;
        self.info.length = self.info.length + 4;
    }

    /// Writes a little-endian `u64` at the cursor; when it does not fit
    /// nothing changes.
    pub fn add_u64(&mut self, value: u64)
        requires
            length_room(old(self)@, 8),
        ensures
            msg_wf(final(self)@),
            final(self)@ == write_effect(old(self)@, le_bytes(value as nat, 8)),
    {
        proof {
            use_type_invariant(&*self);
        }
        proof {
            lemma_le_bytes_len(value as nat, 8);
        }
        if !self.can_add(8) {
            return;
        }
        proof {
            use_type_invariant(&*self);
        }
        let pos = self.info.position as usize;
        le_write_u64(&mut self.buffer, pos, value);
        self.info.position = self.info.position + 8;
        self.info.length = self.info.length + 8;
    }

    /// Puts a packet body as it arrives into the buffer right after the
    /// length header, and moves the cursor to the body's start (where the
    /// checksum, if any, comes first).
    pub fn write_body(&mut self, body: &[u8])
        requires
            body@.len() <= NETWORK_MESSAGE_MAXSIZE - HEADER_LENGTH,
        ensures
            msg_wf(final(self)@),
            final(self)@ == (MessageView {
                position: HEADER_LENGTH as int,
                buffer: splice(old(self)@.buffer, HEADER_LENGTH as int, body@),
                ..old(self)@
            }),
    {
        proof {
            use_type_invariant(&*self);
        }
        let n = body.len();
        let ghost before = self.buffer@;
        let mut i: usize = 0;
        while i < n
            invariant
                n == body@.len(),
                n <= NETWORK_MESSAGE_MAXSIZE - HEADER_LENGTH,
                i <= n,
                before.len() == NETWORK_MESSAGE_MAXSIZE,
                self.buffer@.len() == NETWORK_MESSAGE_MAXSIZE,
                self.info == old(self).info,
                self.info.position <= NETWORK_MESSAGE_MAXSIZE,
                self.buffer@ =~= splice(before, HEADER_LENGTH as int, body@.take(i as int)),
            decreases n - i,
        {
            self.buffer[HEADER_LENGTH + i] = body[i];
            proof {
                assert(body@.take(i + 1) =~= body@.take(i as int).push(body@[i as int]));
            }
            i = i + 1;
        }
        assert(body@.take(n as int) =~= body@);
        self.info.position = HEADER_LENGTH as u16;
    }

    /// Writes raw bytes at the cursor; more than `MAX_STRING_LENGTH` bytes,
    /// or bytes that do not fit, change nothing.
    pub fn add_bytes(&mut self, bytes: &[u8])
        requires
            length_room(old(self)@, bytes@.len() as int),
        ensures
            msg_wf(final(self)@),
            bytes@.len() > MAX_STRING_LENGTH ==> final(self)@ == old(self)@,
            bytes@.len() <= MAX_STRING_LENGTH ==> final(self)@ == write_effect(old(self)@, bytes@),
    {
        proof {
            use_type_invariant(&*self);
        }
        if bytes.len() > MAX_STRING_LENGTH || !self.can_add(bytes.len()) {
            return;
        }
        proof {
            use_type_invariant(&*self);
        }
        let start = self.info.position as usize;
        let n = bytes.len();
        let ghost before = self.buffer@;
        let mut i: usize = 0;
        while i < n
            invariant
                n == bytes@.len(),
                start + n < MAX_BODY_LENGTH,
                i <= n,
                start == self.info.position,
                self.info.position <= NETWORK_MESSAGE_MAXSIZE,
                before.len() == NETWORK_MESSAGE_MAXSIZE,
                self.buffer@.len() == NETWORK_MESSAGE_MAXSIZE,
                self.info == old(self).info,
                self.buffer@ =~= splice(before, start as int, bytes@.take(i as int)),
            decreases n - i,
        {
            self.buffer[start + i] = bytes[i];
            proof {
                assert(bytes@.take(i + 1) =~= bytes@.take(i as int).push(bytes@[i as int]));
            }
            i = i + 1;
        }
        assert(bytes@.take(n as int) =~= bytes@);
        self.info.position = self.info.position + n as u16;
        self.info.length = self.info.length + n as u16;
    }

    /// Fills `count` bytes at the cursor with 0x33 and grows the body by
    /// `count`; the cursor stays where it is. When they do not fit nothing changes.
    pub fn add_padding_bytes(&mut self, count: usize)
        requires
            count <= u16::MAX,
            length_room(old(self)@, count as int),
        ensures
            msg_wf(final(self)@),
            msg_can_add(old(self)@, count as int) ==> final(self)@ == (MessageView {
                buffer: splice(
                    old(self)@.buffer,
                    old(self)@.position,
                    Seq::new(count as nat, |i: int| 0x33u8),
                ),
                length: old(self)@.length + count,
                ..old(self)@
            }),
            !msg_can_add(old(self)@, count as int) ==> final(self)@ == old(self)@,
    {
        proof {
            use_type_invariant(&*self);
        }
        if !self.can_add(count) {
            return;
        }
        proof {
            use_type_invariant(&*self);
        }
        let start = self.info.position as usize;
        let ghost before = self.buffer@;
        let mut i: usize = 0;
        while i < count
            invariant
                start + count < MAX_BODY_LENGTH,
                i <= count,
                start == self.info.position,
                self.info.position <= NETWORK_MESSAGE_MAXSIZE,
                before.len() == NETWORK_MESSAGE_MAXSIZE,
                self.buffer@.len() == NETWORK_MESSAGE_MAXSIZE,
                self.info == old(self).info,
                self.buffer@ =~= splice(
                    before,
                    start as int,
                    Seq::new(i as nat, |k: int| 0x33u8),
                ),
            decreases count - i,
        {
            self.buffer[start + i] = 0x33;
            i = i + 1;
        }
        self.info.length = self.info.length + count as u16;
    }

    /// Writes a string: its length as `u16`, then its bytes. A string longer
    /// than `MAX_STRING_LENGTH`, or one that does not fit, changes nothing.
    pub fn add_string(&mut self, value: &[u8])
        requires
            length_room(old(self)@, value@.len() + 2 as int),
        ensures
            msg_wf(final(self)@),
            (value@.len() > MAX_STRING_LENGTH || !msg_can_add(old(self)@, value@.len() + 2 as int))
                ==> final(self)@ == old(self)@,
            (value@.len() <= MAX_STRING_LENGTH && msg_can_add(old(self)@, value@.len() + 2 as int))
                ==> final(self)@ == write_effect(old(self)@, string_bytes(value@)),
    {
        proof {
            use_type_invariant(&*self);
        }
        if value.len() > MAX_STRING_LENGTH || !self.can_add(value.len() + 2) {
            return;
        }
        let ghost m0 = self@;
        proof {
            lemma_le_bytes_len(value@.len() as nat, 2);
        }
        self.add_u16(value.len() as u16);
        let ghost m1 = self@;
        self.add_bytes(value);
        proof {
            let b = le_bytes(value@.len() as nat, 2);
            assert(m1.buffer == splice(m0.buffer, m0.position, b));
            assert(self@.buffer =~= splice(m0.buffer, m0.position, b + value@));
        }
    }

    /// Writes a position: x, y and z in that order; parts that do not fit are
    /// dropped as `add_u16` and `add_byte` drop them.
    pub fn add_position(&mut self, position: Position)
        requires
            length_room(old(self)@, 2),
            length_room(write_effect(old(self)@, le_bytes(position.x as nat, 2)), 2),
            length_room(
                write_effect(
                    write_effect(old(self)@, le_bytes(position.x as nat, 2)),
                    le_bytes(position.y as nat, 2),
                ),
                1,
            ),
        ensures
            msg_wf(final(self)@),
            msg_can_add(old(self)@, 5) ==> final(self)@ == write_effect(
                old(self)@,
                position_bytes(position),
            ),
            final(self)@ == write_effect(
                write_effect(
                    write_effect(old(self)@, le_bytes(position.x as nat, 2)),
                    le_bytes(position.y as nat, 2),
                ),
                seq![position.z],
            ),
    {
        proof {
            use_type_invariant(&*self);
        }
        let ghost m0 = self@;
        proof {
            lemma_le_bytes_len(position.x as nat, 2);
            lemma_le_bytes_len(position.y as nat, 2);
        }
        self.add_u16(position.x);
        let ghost m1 = self@;
        self.add_u16(position.y);
        let ghost m2 = self@;
        self.add_byte(position.z);
        proof {
            if msg_can_add(m0, 5) {
                let bx = le_bytes(position.x as nat, 2);
                let by = le_bytes(position.y as nat, 2);
                assert(self@.buffer =~= splice(m0.buffer, m0.position, position_bytes(position)));
            }
        }
    }

    /// The body length.
    pub fn get_length(&self) -> (length: u16)
        ensures
            length == self@.length,
    {
        self.info.length
    }

    /// Sets the body length.
    pub fn set_length(&mut self, new_length: u16)
        ensures
            msg_wf(final(self)@),
            final(self)@ == (MessageView { length: new_length as int, ..old(self)@ }),
    {
        proof {
            use_type_invariant(&*self);
        }
        self.info.length = new_length;
    }

    /// The cursor, counted from the start of the buffer.
    pub fn get_buffer_position(&self) -> (position: u16)
        ensures
            position == self@.position,
    {
        self.info.position
    }

    /// Places the cursor `position` bytes after the body start; a position
    /// that leaves no room is refused.
    pub fn set_buffer_position(&mut self, position: u16) -> (ok: bool)
        ensures
            msg_wf(final(self)@),
            ok == (position < NETWORK_MESSAGE_MAXSIZE - INITIAL_BUFFER_POSITION),
            ok ==> final(self)@ == (MessageView {
                position: position + INITIAL_BUFFER_POSITION,
                ..old(self)@
            }),
            !ok ==> final(self)@ == old(self)@,
    {
        proof {
            use_type_invariant(&*self);
        }
        if (position as usize) < NETWORK_MESSAGE_MAXSIZE - (INITIAL_BUFFER_POSITION as usize) {
            self.info.position = position + INITIAL_BUFFER_POSITION;
            return true;
        }
        false
    }

    /// The length header: the first two bytes of the buffer, little-endian.
    pub fn get_length_header(&self) -> (header: u16)
        ensures
            header as nat == le_value(self@.buffer.take(2)),
    {
        proof {
            use_type_invariant(self);
            assert(self@.buffer.subrange(0, 2) =~= self@.buffer.take(2));
        }
        le_read_u16(self.buffer.as_slice(), 0)
    }

    /// Whether a read has passed the body's end.
    pub fn is_overrun(&self) -> (overrun: bool)
        ensures
            overrun == self@.overrun,
    {
        self.info.overrun
    }

    /// The whole buffer.
    pub fn buffer(&self) -> (bytes: &[u8])
        ensures
            bytes@ == self@.buffer,
    {
        self.buffer.as_slice()
    }
}

/// The message state with the cursor moved back to `position` and the body
/// length set to `length`, as a reader does after a writer has filled the buffer.
pub open spec fn rewind(m: MessageView, position: int, length: int) -> MessageView {
    MessageView { position, length, ..m }
}

/// Reading never changes the buffer or the body length, and once a read has
/// passed the body's end the overrun flag stays raised.
pub proof fn law_read_keeps_body(m: MessageView, size: int)
    ensures
        read_effect(m, size).buffer == m.buffer,
        read_effect(m, size).length == m.length,
        m.overrun ==> read_effect(m, size).overrun,
        !msg_can_read(m, size) ==> read_effect(m, size).overrun,
        !msg_can_read(m, size) ==> read_number(m, size) == 0,
{
}

/// A write keeps the state well formed and, when it fits, leaves the cursor
/// just after the written bytes.
pub proof fn law_write_keeps_wf(m: MessageView, bytes: Seq<u8>)
    requires
        msg_wf(m),
        length_room(m, bytes.len() as int),
    ensures
        msg_wf(write_effect(m, bytes)),
        msg_can_add(m, bytes.len() as int) ==> write_effect(m, bytes).position == m.position
            + bytes.len(),
{
}

/// Bytes written at a position are read back from that position.
pub proof fn law_bytes_read_back(m: MessageView, bytes: Seq<u8>, length: int)
    requires
        msg_wf(m),
        msg_can_add(m, bytes.len() as int),
        m.position + bytes.len() <= length + INITIAL_BUFFER_POSITION,
    ensures
        ({
            let r = rewind(write_effect(m, bytes), m.position, length);
            &&& msg_can_read(r, bytes.len() as int)
            &&& read_window(r, bytes.len() as int) == bytes
            &&& read_effect(r, bytes.len() as int).position == write_effect(m, bytes).position
        }),
{
    let r = rewind(write_effect(m, bytes), m.position, length);
    assert(read_window(r, bytes.len() as int) =~= bytes);
}

/// A number written in `k` bytes at a position is read back from there.
pub proof fn law_number_round_trip(m: MessageView, value: nat, k: nat, length: int)
    requires
        msg_wf(m),
        value < byte_range(k),
        msg_can_add(m, k as int),
        m.position + k <= length + INITIAL_BUFFER_POSITION,
    ensures
        ({
            let r = rewind(write_effect(m, le_bytes(value, k)), m.position, length);
            &&& msg_can_read(r, k as int)
            &&& read_number(r, k as int) == value
            &&& !read_effect(r, k as int).overrun || m.overrun
        }),
{
    lemma_le_roundtrip(value, k);
    law_bytes_read_back(m, le_bytes(value, k), length);
}

/// A string written at a position is read back, length prefix and all, by
/// `get_string` without a given length.
pub proof fn law_string_round_trip(m: MessageView, s: Seq<u8>, length: int)
    requires
        msg_wf(m),
        s.len() <= MAX_STRING_LENGTH,
        msg_can_add(m, s.len() + 2 as int),
        m.position + s.len() + 2 <= length + INITIAL_BUFFER_POSITION,
    ensures
        ({
            let r = rewind(write_effect(m, string_bytes(s)), m.position, length);
            &&& string_read_value(r, None) == s
            &&& string_read_effect(r, None).position == m.position + s.len() + 2
            &&& string_read_effect(r, None).overrun == m.overrun
        }),
{
    lemma_byte_ranges();
    lemma_le_roundtrip(s.len() as nat, 2);
    let bytes = string_bytes(s);
    let w = write_effect(m, bytes);
    let r = rewind(w, m.position, length);
    law_bytes_read_back(m, bytes, length);
    assert(read_window(r, 2) =~= le_bytes(s.len() as nat, 2));
    let r1 = read_effect(r, 2);
    assert(read_window(r1, s.len() as int) =~= s);
}

/// A position written at a position is read back by `get_position`.
pub proof fn law_position_round_trip(m: MessageView, p: Position, length: int)
    requires
        msg_wf(m),
        msg_can_add(m, 5),
        m.position + 5 <= length + INITIAL_BUFFER_POSITION,
    ensures
        ({
            let r = rewind(write_effect(m, position_bytes(p)), m.position, length);
            let r1 = read_effect(r, 2);
            let r2 = read_effect(r1, 2);
            &&& read_number(r, 2) == p.x
            &&& read_number(r1, 2) == p.y
            &&& read_number(r2, 1) == p.z
            &&& !read_effect(r2, 1).overrun || m.overrun
        }),
{
    lemma_byte_ranges();
    lemma_le_roundtrip(p.x as nat, 2);
    lemma_le_roundtrip(p.y as nat, 2);
    lemma_le_roundtrip(p.z as nat, 1);
    let bytes = position_bytes(p);
    let r = rewind(write_effect(m, bytes), m.position, length);
    law_bytes_read_back(m, bytes, length);
    assert(read_window(r, 2) =~= le_bytes(p.x as nat, 2));
    let r1 = read_effect(r, 2);
    assert(read_window(r1, 2) =~= le_bytes(p.y as nat, 2));
    let r2 = read_effect(r1, 2);
    assert(read_window(r2, 1) =~= le_bytes(p.z as nat, 1));
}

impl Default for NetworkMessage {
    fn default() -> (msg: Self)
        ensures
            msg_wf(msg@),
            msg@.length == 0,
            msg@.position == INITIAL_BUFFER_POSITION,
            !msg@.overrun,
    {
        Self::new()
    }
}

} // verus!
