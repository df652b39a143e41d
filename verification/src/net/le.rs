//! Little-endian integer encoding: the mathematical model of the encoding,
//! its round-trip lemmas, and the calls into `byteorder` that read and write it.
use vstd::prelude::*;
use byteorder::{ByteOrder, LittleEndian};

verus! {

/// The number whose little-endian encoding is `s`.
pub open spec fn le_value(s: Seq<u8>) -> nat
    decreases s.len(),
{
    if s.len() == 0 {
        0
    } else {
        s[0] as nat + 256 * le_value(s.drop_first())
    }
}

/// The `k` least significant bytes of `n`, least significant first.
pub open spec fn le_bytes(n: nat, k: nat) -> Seq<u8>
    decreases k,
{
    if k == 0 {
        Seq::empty()
    } else {
        seq![(n % 256) as u8] + le_bytes(n / 256, (k - 1) as nat)
    }
}

/// 256 to the power `k`: the number of values that `k` bytes hold.
pub open spec fn byte_range(k: nat) -> nat
    decreases k,
{
    if k == 0 {
        1
    } else {
        256 * byte_range((k - 1) as nat)
    }
}

/// The encoding of `n` in `k` bytes has `k` bytes.
pub proof fn lemma_le_bytes_len(n: nat, k: nat)
    ensures
        le_bytes(n, k).len() == k,
    decreases k,
{
    if k > 0 {
        lemma_le_bytes_len(n / 256, (k - 1) as nat);
    }
}

/// Decoding the `k`-byte encoding of a number below `256^k` gives the number back.
pub proof fn lemma_le_roundtrip(n: nat, k: nat)
    requires
        n < byte_range(k),
    ensures
        le_value(le_bytes(n, k)) == n,
        le_bytes(n, k).len() == k,
    decreases k,
{
    lemma_le_bytes_len(n, k);
    if k > 0 {
        let q = n / 256;
        let r = n % 256;
        assert(q < byte_range((k - 1) as nat)) by (nonlinear_arith)
            requires
                n < 256 * byte_range((k - 1) as nat),
                q == n / 256,
        ;
        lemma_le_roundtrip(q, (k - 1) as nat);
        let s = le_bytes(n, k);
        assert(s.drop_first() =~= le_bytes(q, (k - 1) as nat));
        assert(s[0] == (r as u8));
        assert(n == r + 256 * q) by (nonlinear_arith)
            requires
                q == n / 256,
                r == n % 256,
        ;
    }
}

/// A value read from `k` bytes is below `256^k`.
pub proof fn lemma_le_value_bound(s: Seq<u8>)
    ensures
        le_value(s) < byte_range(s.len()),
    decreases s.len(),
{
    if s.len() > 0 {
        lemma_le_value_bound(s.drop_first());
        let v = le_value(s.drop_first());
        let b = byte_range(s.drop_first().len());
        assert(s[0] as nat + 256 * v < 256 * b) by (nonlinear_arith)
            requires
                v < b,
                s[0] < 256,
        ;
    }
}

pub proof fn lemma_byte_ranges()
    ensures
        byte_range(1) == 256,
        byte_range(2) == 65536,
        byte_range(4) == 0x1_0000_0000,
        byte_range(8) == 0x1_0000_0000_0000_0000,
{
    reveal_with_fuel(byte_range, 9);
}

/// The bytes of `old` with the window at `at` replaced by `bytes`.
pub open spec fn splice(old: Seq<u8>, at: int, bytes: Seq<u8>) -> Seq<u8> {
    old.take(at) + bytes + old.skip(at + bytes.len())
}

/// Reads the two bytes at `at` as a little-endian `u16`
/// (`byteorder::LittleEndian::read_u16` on the slice starting there, which
/// returns exactly this number).
#[verifier::external_body]
pub(crate) fn le_read_u16(buf: &[u8], at: usize) -> (v: u16)
    requires
        at + 2 <= buf@.len(),
    ensures
        v as nat == le_value(buf@.subrange(at as int, at + 2)),
{
    LittleEndian::read_u16(&buf[at..])
}

/// Reads the four bytes at `at` as a little-endian `u32`
/// (`byteorder::LittleEndian::read_u32`).
#[verifier::external_body]
pub(crate) fn le_read_u32(buf: &[u8], at: usize) -> (v: u32)
    requires
        at + 4 <= buf@.len(),
    ensures
        v as nat == le_value(buf@.subrange(at as int, at + 4)),
{
    LittleEndian::read_u32(&buf[at..])
}

/// Reads the eight bytes at `at` as a little-endian `u64`
/// (`byteorder::LittleEndian::read_u64`).
#[verifier::external_body]
pub(crate) fn le_read_u64(buf: &[u8], at: usize) -> (v: u64)
    requires
        at + 8 <= buf@.len(),
    ensures
        v as nat == le_value(buf@.subrange(at as int, at + 8)),
{
    LittleEndian::read_u64(&buf[at..])
}

/// Writes `n` as two little-endian bytes at `at`
/// (`byteorder::LittleEndian::write_u16`, which overwrites exactly those bytes
/// and, with the window inside the buffer, does not panic).
#[verifier::external_body]
pub(crate) fn le_write_u16(buf: &mut Vec<u8>, at: usize, n: u16)
    requires
        at + 2 <= old(buf)@.len(),
    ensures
        final(buf)@ == splice(old(buf)@, at as int, le_bytes(n as nat, 2)),
    no_unwind
{
    LittleEndian::write_u16(&mut buf[at..], n)
}

/// Writes `n` as four little-endian bytes at `at`
/// (`byteorder::LittleEndian::write_u32`).
#[verifier::external_body]
pub(crate) fn le_write_u32(buf: &mut Vec<u8>, at: usize, n: u32)
    requires
        at + 4 <= old(buf)@.len(),
    ensures
        final(buf)@ == splice(old(buf)@, at as int, le_bytes(n as nat, 4)),
    no_unwind
{
    LittleEndian::write_u32(&mut buf[at..], n)
}

/// Writes `n` as eight little-endian bytes at `at`
/// (`byteorder::LittleEndian::write_u64`).
#[verifier::external_body]
pub(crate) fn le_write_u64(buf: &mut Vec<u8>, at: usize, n: u64)
    requires
        at + 8 <= old(buf)@.len(),
    ensures
        final(buf)@ == splice(old(buf)@, at as int, le_bytes(n as nat, 8)),
    no_unwind
{
    LittleEndian::write_u64(&mut buf[at..], n)
}

} // verus!
