//! The outgoing message: the body is written after a reserved head room, and
//! the length, checksum and other headers are prepended into that room.
use vstd::prelude::*;
use crate::net::le::{
    le_bytes, le_write_u16, le_write_u32, le_write_u64, lemma_le_bytes_len, splice,
};
use crate::net::message::NETWORK_MESSAGE_MAXSIZE;
use crate::util::{adler32, adler_checksum};

verus! {

/// Head room reserved in front of the body for headers.
pub const OUTPUT_INITIAL_POSITION: usize = 8;

/// The abstract state of an outgoing message: the whole buffer, where the
/// output starts, how long it is, and the write cursor.
pub ghost struct OutputView {
    pub buffer: Seq<u8>,
    pub start: int,
    pub length: int,
    pub position: int,
}

/// An outgoing message buffer of `NETWORK_MESSAGE_MAXSIZE` bytes.
pub struct OutputMessage {
    buffer: Vec<u8>,
    output_buffer_start: usize,
    length: usize,
    position: usize,
}

impl View for OutputMessage {
    type V = OutputView;

    closed spec fn view(&self) -> OutputView {
        OutputView {
            buffer: self.buffer@,
            start: self.output_buffer_start as int,
            length: self.length as int,
            position: self.position as int,
        }
    }
}

/// A well-formed outgoing state: a full buffer, the cursor between the output
/// start and the buffer's end, the output inside the buffer.
pub open spec fn out_wf(o: OutputView) -> bool {
    &&& o.buffer.len() == NETWORK_MESSAGE_MAXSIZE
    &&& 0 <= o.start <= o.position <= NETWORK_MESSAGE_MAXSIZE
    &&& 0 <= o.length
    &&& o.start + o.length <= NETWORK_MESSAGE_MAXSIZE
}

/// The bytes that go on the wire.
pub open spec fn out_bytes(o: OutputView) -> Seq<u8> {
    o.buffer.subrange(o.start, o.start + o.length)
}

/// Whether `size` bytes fit at the cursor.
pub open spec fn out_fits(o: OutputView, size: int) -> bool {
    o.position + size <= NETWORK_MESSAGE_MAXSIZE
}

/// The output length after the cursor has moved to `position`: it grows to
/// cover the cursor and never shrinks.
pub open spec fn synced_length(o: OutputView, position: int) -> int {
    if position - o.start > o.length {
        position - o.start
    } else {
        o.length
    }
}

/// The state after writing `bytes` at the cursor; when they do not fit
/// nothing changes.
pub open spec fn out_write(o: OutputView, bytes: Seq<u8>) -> OutputView {
    if out_fits(o, bytes.len() as int) {
        OutputView {
            buffer: splice(o.buffer, o.position, bytes),
            position: o.position + bytes.len(),
            length: synced_length(o, o.position + bytes.len()),
            ..o
        }
    } else {
        o
    }
}

/// The state after prepending `bytes` as a header in front of the output.
pub open spec fn out_prepend(o: OutputView, bytes: Seq<u8>) -> OutputView {
    OutputView {
        buffer: splice(o.buffer, o.start - bytes.len(), bytes),
        start: o.start - bytes.len(),
        length: o.length + bytes.len(),
        ..o
    }
}

/// The state after `write_message_length`: the output length as a
/// two-byte header.
pub open spec fn with_length_header(o: OutputView) -> OutputView {
    out_prepend(o, le_bytes((o.length % 65536) as nat, 2))
}

/// The state after `add_crypto_header`: with `checksummed`, the Adler-32
/// checksum of the output as a four-byte header, then the length header.
pub open spec fn with_crypto_header(o: OutputView, checksummed: bool) -> OutputView {
    let o1 = if checksummed {
        out_prepend(o, le_bytes(adler32(out_bytes(o)), 4))
    } else {
        o
    };
    with_length_header(o1)
}

impl OutputMessage {
    #[verifier::type_invariant]
    spec fn inv(self) -> bool {
        out_wf(self@)
    }

    /// An empty outgoing message with eight bytes of head room.
    pub fn new() -> (out: Self)
        ensures
            out_wf(out@),
            out@.start == OUTPUT_INITIAL_POSITION,
            out@.position == OUTPUT_INITIAL_POSITION,
            out@.length == 0,
            out@.buffer == Seq::new(NETWORK_MESSAGE_MAXSIZE as nat, |i: int| 0u8),
    {
        let buffer = vec![0u8; NETWORK_MESSAGE_MAXSIZE];
        assert(buffer@ =~= Seq::new(NETWORK_MESSAGE_MAXSIZE as nat, |i: int| 0u8));
        OutputMessage {
            buffer,
            output_buffer_start: OUTPUT_INITIAL_POSITION,
            length: 0,
            position: OUTPUT_INITIAL_POSITION,
        }
    }

    fn sync_length(&mut self)
        requires
            old(self).output_buffer_start <= old(self).position,
        ensures
            final(self)@ == (OutputView {
                length: synced_length(old(self)@, old(self)@.position),
                ..old(self)@
            }),
    {
        proof {
            use_type_invariant(&*self);
        }
        let end = self.position - self.output_buffer_start;
        if end > self.length {
            self.length = end;
        }
    }

    /// Writes one byte at the cursor; when it does not fit nothing changes.
    pub fn add_byte(&mut self, value: u8)
        ensures
            out_wf(final(self)@),
            final(self)@ == out_write(old(self)@, seq![value]),
    {
        proof {
            use_type_invariant(&*self);
        }
        if self.position < NETWORK_MESSAGE_MAXSIZE {
            let pos = self.position;
            self.buffer[pos] = value;
            self.position = self.position + 1;
            self.sync_length();
            assert(self.buffer@ =~= splice(old(self)@.buffer, pos as int, seq![value]));
        }
    }

    /// Writes a little-endian `u16` at the cursor; when it does not fit
    /// nothing changes.
    pub fn add_u16(&mut self, value: u16)
        ensures
            out_wf(final(self)@),
            final(self)@ == out_write(old(self)@, le_bytes(value as nat, 2)),
    {
        proof {
            use_type_invariant(&*self);
            lemma_le_bytes_len(value as nat, 2);
        }
        if self.position + 2 <= NETWORK_MESSAGE_MAXSIZE {
            let pos = self.position;
            le_write_u16(&mut self.buffer, pos, value);
            self.position = self.position + 2;
            self.sync_length();
        }
    }

    /// Writes a little-endian `u32` at the cursor; when it does not fit
    /// nothing changes.
    pub fn add_u32(&mut self, value: u32)
        ensures
            out_wf(final(self)@),
            final(self)@ == out_write(old(self)@, le_bytes(value as nat, 4)),
    {
        proof {
            use_type_invariant(&*self);
            lemma_le_bytes_len(value as nat, 4);
        }
        if self.position + 4 <= NETWORK_MESSAGE_MAXSIZE {
            let pos = self.position;
            le_write_u32(&mut self.buffer, pos, value);
            self.position = self.position + 4;
            self.sync_length();
        }
    }

    /// Writes a little-endian `u64` at the cursor; when it does not fit
    /// nothing changes.
    pub fn add_u64(&mut self, value: u64)
        ensures
            out_wf(final(self)@),
            final(self)@ == out_write(old(self)@, le_bytes(value as nat, 8)),
    {
        proof {
            use_type_invariant(&*self);
            lemma_le_bytes_len(value as nat, 8);
        }
        if self.position + 8 <= NETWORK_MESSAGE_MAXSIZE {
            let pos = self.position;
            le_write_u64(&mut self.buffer, pos, value);
            self.position = self.position + 8;
            self.sync_length();
        }
    }

    /// Writes raw bytes at the cursor; when they do not fit nothing changes.
    pub fn add_bytes(&mut self, data: &[u8])
        ensures
            out_wf(final(self)@),
            final(self)@ == out_write(old(self)@, data@),
    {
        proof {
            use_type_invariant(&*self);
        }
        if data.len() <= NETWORK_MESSAGE_MAXSIZE && self.position + data.len()
            <= NETWORK_MESSAGE_MAXSIZE {
            let start = self.position;
            let n = data.len();
            let ghost before = self.buffer@;
            let mut i: usize = 0;
            while i < n
                invariant
                    n == data@.len(),
                    start + n <= NETWORK_MESSAGE_MAXSIZE,
                    i <= n,
                    start == self.position,
                    self.output_buffer_start == old(self).output_buffer_start,
                    self.length == old(self).length,
                    out_wf(old(self)@),
                    start == old(self)@.position,
                    before.len() == NETWORK_MESSAGE_MAXSIZE,
                    self.buffer@.len() == NETWORK_MESSAGE_MAXSIZE,
                    self.buffer@ =~= splice(before, start as int, data@.take(i as int)),
                decreases n - i,
            {
                self.buffer[start + i] = data[i];
                proof {
                    assert(data@.take(i + 1) =~= data@.take(i as int).push(data@[i as int]));
                }
                i = i + 1;
            }
            assert(data@.take(n as int) =~= data@);
            self.position = self.position + n;
            self.sync_length();
        }
    }

    /// Writes a string: its length truncated to `u16`, then its bytes; each
    /// part that does not fit is dropped.
    pub fn add_string(&mut self, data: &[u8])
        ensures
            out_wf(final(self)@),
            final(self)@ == out_write(
                out_write(old(self)@, le_bytes((data@.len() % 65536) as nat, 2)),
                data@,
            ),
    {
        let n = data.len();
        proof {
            assert(n as u16 == n % 65536) by (bit_vector);
        }
        self.add_u16(n as u16);
        self.add_bytes(data);
    }

    /// Fills `count` bytes at the cursor with 0x33 and moves the cursor past
    /// them; when they do not fit nothing changes.
    pub fn add_padding_bytes(&mut self, count: usize)
        ensures
            out_wf(final(self)@),
            final(self)@ == out_write(old(self)@, Seq::new(count as nat, |i: int| 0x33u8)),
    {
        proof {
            use_type_invariant(&*self);
        }
        if count <= NETWORK_MESSAGE_MAXSIZE && self.position + count <= NETWORK_MESSAGE_MAXSIZE {
            let start = self.position;
            let ghost before = self.buffer@;
            let mut i: usize = 0;
            while i < count
                invariant
                    start + count <= NETWORK_MESSAGE_MAXSIZE,
                    i <= count,
                    start == self.position,
                    self.output_buffer_start == old(self).output_buffer_start,
                    self.length == old(self).length,
                    out_wf(old(self)@),
                    start == old(self)@.position,
                    before.len() == NETWORK_MESSAGE_MAXSIZE,
                    self.buffer@.len() == NETWORK_MESSAGE_MAXSIZE,
                    self.buffer@ =~= splice(
                        before,
                        start as int,
                        Seq::new(i as nat, |k: int| 0x33u8),
                    ),
                decreases count - i,
            {
                self.buffer[start + i] = 0x33;
                i = i + 1;
            }
            self.position = self.position + count;
            self.sync_length();
        }
    }

    /// Moves the cursor by `count` bytes.
    pub fn skip_bytes(&mut self, count: isize)
        requires
            old(self)@.start <= old(self)@.position + count <= NETWORK_MESSAGE_MAXSIZE,
        ensures
            out_wf(final(self)@),
            final(self)@ == (OutputView { position: old(self)@.position + count, ..old(self)@ }),
    {
        proof {
            use_type_invariant(&*self);
        }
        let next: isize = self.position as isize + count;
        self.position = next as usize;
    }

    fn add_header_u16(&mut self, value: u16)
        requires
            old(self)@.start >= 2,
        ensures
            out_wf(final(self)@),
            final(self)@ == out_prepend(old(self)@, le_bytes(value as nat, 2)),
    {
        proof {
            use_type_invariant(&*self);
            lemma_le_bytes_len(value as nat, 2);
        }
        self.output_buffer_start = self.output_buffer_start - 2;
        let start = self.output_buffer_start;
        le_write_u16(&mut self.buffer, start, value);
        self.length = self.length + 2;
    }

    fn add_header_u32(&mut self, value: u32)
        requires
            old(self)@.start >= 4,
        ensures
            out_wf(final(self)@),
            final(self)@ == out_prepend(old(self)@, le_bytes(value as nat, 4)),
    {
        proof {
            use_type_invariant(&*self);
            lemma_le_bytes_len(value as nat, 4);
        }
        self.output_buffer_start = self.output_buffer_start - 4;
        let start = self.output_buffer_start;
        le_write_u32(&mut self.buffer, start, value);
        self.length = self.length + 4;
    }

    /// Prepends the output length as a two-byte header.
    pub fn write_message_length(&mut self)
        requires
            old(self)@.start >= 2,
        ensures
            out_wf(final(self)@),
            final(self)@ == with_length_header(old(self)@),
    {
        proof {
            use_type_invariant(&*self);
        }
        let len = self.length as u16;
        self.add_header_u16(len);
    }

    /// Prepends, when `checksummed`, the Adler-32 checksum of the output, then
    /// the length header.
    pub fn add_crypto_header(&mut self, checksummed: bool)
        requires
            old(self)@.start >= (if checksummed { 6int } else { 2int }),
        ensures
            out_wf(final(self)@),
            final(self)@ == with_crypto_header(old(self)@, checksummed),
    {
        proof {
            use_type_invariant(&*self);
        }
        if checksummed {
            let checksum = adler_checksum(self.get_output_buffer());
            proof {
                lemma_le_bytes_len(checksum as nat, 4);
            }
            self.add_header_u32(checksum);
        }
        self.write_message_length();
    }

    /// The bytes that go on the wire: the headers and the body.
    pub fn get_output_buffer(&self) -> (bytes: &[u8])
        ensures
            bytes@ == out_bytes(self@),
    {
        proof {
            use_type_invariant(self);
        }
        let start = self.output_buffer_start;
        &self.buffer.as_slice()[start..start + self.length]
    }

    /// The whole buffer.
    pub fn get_raw_buffer(&self) -> (bytes: &[u8])
        ensures
            bytes@ == self@.buffer,
    {
        self.buffer.as_slice()
    }

    /// The output length.
    pub fn get_length(&self) -> (length: usize)
        ensures
            length == self@.length,
    {
        self.length
    }

    /// Writes a position: x, y and z in that order.
    pub fn add_position(&mut self, x: u16, y: u16, z: u8)
        ensures
            out_wf(final(self)@),
            final(self)@ == out_write(
                out_write(out_write(old(self)@, le_bytes(x as nat, 2)), le_bytes(y as nat, 2)),
                seq![z],
            ),
    {
        self.add_u16(x);
        self.add_u16(y);
        self.add_byte(z);
    }
}

/// With the cursor at the end of the output, written bytes are appended to
/// the output and the cursor stays at its end.
pub proof fn law_write_appends(o: OutputView, bytes: Seq<u8>)
    requires
        out_wf(o),
        o.position == o.start + o.length,
        out_fits(o, bytes.len() as int),
    ensures
        out_bytes(out_write(o, bytes)) == out_bytes(o) + bytes,
        out_write(o, bytes).position == out_write(o, bytes).start + out_write(o, bytes).length,
        out_wf(out_write(o, bytes)),
{
    assert(out_bytes(out_write(o, bytes)) =~= out_bytes(o) + bytes);
}

/// A prepended header comes out in front of the output it was put before.
pub proof fn law_prepend_header(o: OutputView, bytes: Seq<u8>)
    requires
        out_wf(o),
        o.start >= bytes.len(),
    ensures
        out_bytes(out_prepend(o, bytes)) == bytes + out_bytes(o),
        out_wf(out_prepend(o, bytes)),
{
    assert(out_bytes(out_prepend(o, bytes)) =~= bytes + out_bytes(o));
}

/// A finished message reads: the length of what follows, the checksum of
/// the body, then the body.
pub proof fn law_crypto_header_layout(o: OutputView)
    requires
        out_wf(o),
        o.start >= 6,
    ensures
        out_bytes(with_crypto_header(o, true)) == le_bytes(((o.length + 4) % 65536) as nat, 2)
            + le_bytes(adler32(out_bytes(o)), 4) + out_bytes(o),
        out_bytes(with_crypto_header(o, false)) == le_bytes((o.length % 65536) as nat, 2)
            + out_bytes(o),
{
    let c = le_bytes(adler32(out_bytes(o)), 4);
    lemma_le_bytes_len(adler32(out_bytes(o)), 4);
    law_prepend_header(o, c);
    let o1 = out_prepend(o, c);
    let h = le_bytes(((o.length + 4) % 65536) as nat, 2);
    lemma_le_bytes_len(((o.length + 4) % 65536) as nat, 2);
    law_prepend_header(o1, h);
    assert(out_bytes(with_crypto_header(o, true)) =~= h + (c + out_bytes(o)));
    lemma_le_bytes_len((o.length % 65536) as nat, 2);
    law_prepend_header(o, le_bytes((o.length % 65536) as nat, 2));
}

impl Default for OutputMessage {
    fn default() -> (out: Self)
        ensures
            out_wf(out@),
            out@.start == OUTPUT_INITIAL_POSITION,
            out@.position == OUTPUT_INITIAL_POSITION,
            out@.length == 0,
    {
        Self::new()
    }
}

} // verus!
