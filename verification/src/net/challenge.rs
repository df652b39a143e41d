//! The challenge a game server sends first on a new connection: a
//! timestamp and a random byte the client must echo when it logs in.
use vstd::prelude::*;
use crate::net::le::{le_bytes, lemma_le_bytes_len, splice};
use crate::net::output_message::{
    out_bytes, out_wf, OutputMessage, OUTPUT_INITIAL_POSITION,
};
use crate::util::{adler32, adler_checksum};

verus! {

/// The challenge body: its size 6, the challenge opcode 0x1F, the
/// timestamp and the random byte.
pub open spec fn challenge_body(timestamp: u32, random: u8) -> Seq<u8> {
    le_bytes(6, 2) + seq![0x1Fu8] + le_bytes(timestamp as nat, 4) + seq![random]
}

/// The challenge on the wire: the length 12, the checksum of the body,
/// then the body.
pub open spec fn challenge_packet(timestamp: u32, random: u8) -> Seq<u8> {
    le_bytes(12, 2) + le_bytes(adler32(challenge_body(timestamp, random)), 4) + challenge_body(
        timestamp,
        random,
    )
}

/// Writes the challenge into a fresh outgoing message (see
/// `challenge_packet`).
pub fn write_challenge(output: &mut OutputMessage, timestamp: u32, random: u8)
    requires
        out_wf(old(output)@),
        old(output)@.start == OUTPUT_INITIAL_POSITION,
        old(output)@.position == OUTPUT_INITIAL_POSITION,
        old(output)@.length == 0,
    ensures
        out_bytes(final(output)@) == challenge_packet(timestamp, random),
{
    proof {
        lemma_le_bytes_len(6, 2);
        lemma_le_bytes_len(timestamp as nat, 4);
        lemma_le_bytes_len(12, 2);
    }
    output.skip_bytes(4);
    output.add_u16(0x0006);
    output.add_byte(0x1F);
    output.add_u32(timestamp);
    output.add_byte(random);
    let ghost b1 = output@.buffer;
    assert(b1.subrange(12, 20) =~= challenge_body(timestamp, random));
    output.skip_bytes(-12);
    let checksum = adler_checksum(&output.get_raw_buffer()[12..20]);
    proof {
        lemma_le_bytes_len(checksum as nat, 4);
    }
    output.add_u32(checksum);
    let ghost b2 = output@.buffer;
    assert(output@.start == 8 && output@.length == 12);
    assert(b2.subrange(8, 20) =~= le_bytes(checksum as nat, 4) + challenge_body(timestamp, random));
    output.write_message_length();
    assert(out_bytes(output@) =~= challenge_packet(timestamp, random));
}

} // verus!
