//! Small utilities: the Adler-32 checksum used on the wire, fluid id
//! mapping between client and server, clock and random helpers.
use vstd::prelude::*;
use vstd::arithmetic::div_mod::lemma_add_mod_noop;
use crate::net::message::NETWORK_MESSAGE_MAXSIZE;
use rand::Rng;
use std::time::{Duration, SystemTime, UNIX_EPOCH};

pub mod date;
pub mod text;
pub mod wildcard;
pub mod xml;

verus! {

/// The Adler-32 modulus.
pub const ADLER_MOD: u32 = 65521;

/// Number of bytes that can be summed before the running sums must be reduced.
pub const ADLER_CHUNK: usize = 5552;

/// Sum of all bytes of `s`.
pub open spec fn byte_sum(s: Seq<u8>) -> nat
    decreases s.len(),
{
    if s.len() == 0 {
        0
    } else {
        byte_sum(s.drop_last()) + s.last() as nat
    }
}

/// The unreduced first Adler sum: one plus the sum of the bytes.
pub open spec fn adler_low(s: Seq<u8>) -> nat {
    1 + byte_sum(s)
}

/// The unreduced second Adler sum: the sum of the first sums of every
/// non-empty prefix of `s`.
pub open spec fn adler_high(s: Seq<u8>) -> nat
    decreases s.len(),
{
    if s.len() == 0 {
        0
    } else {
        adler_high(s.drop_last()) + adler_low(s)
    }
}

/// The Adler-32 checksum of `s`: the reduced second sum in the high half,
/// the reduced first sum in the low half.
pub open spec fn adler32(s: Seq<u8>) -> nat {
    (adler_high(s) % (ADLER_MOD as nat)) * 65536 + adler_low(s) % (ADLER_MOD as nat)
}

proof fn lemma_congruent_add(a: int, b: int, x: int, m: int)
    requires
        0 < m,
        a % m == b % m,
    ensures
        (a + x) % m == (b + x) % m,
{
    lemma_add_mod_noop(a, x, m);
    lemma_add_mod_noop(b, x, m);
}

proof fn lemma_chunk_bound(k: int, a: int, b: int, byte: int)
    by (nonlinear_arith)
    requires
        0 <= k < 5552,
        0 <= byte <= 255,
        0 <= a <= 65520 + 255 * k,
        0 <= b,
        2 * b <= 2 * 65520 + 2 * 65520 * k + 255 * k * (k + 1),
    ensures
        a + byte <= 65520 + 255 * (k + 1),
        2 * (b + a + byte) <= 2 * 65520 + 2 * 65520 * (k + 1) + 255 * (k + 1) * (k + 2),
        b + a + byte <= 0xffff_ffff,
{
    assert(255 * (k + 1) * (k + 2) <= 255 * 5552 * 5553);
}

proof fn lemma_pack_halves(hi: u32, lo: u32)
    requires
        hi < 65536,
        lo < 65536,
    ensures
        (hi << 16u32) | lo == hi * 65536 + lo,
{
    assert((hi << 16u32) | lo == hi * 65536 + lo) by (bit_vector)
        requires
            hi < 65536,
            lo < 65536,
    ;
}

/// Computes the Adler-32 checksum of `data`; inputs longer than a network
/// message buffer give 0.
pub fn adler_checksum(data: &[u8]) -> (checksum: u32)
    ensures
        data@.len() > NETWORK_MESSAGE_MAXSIZE ==> checksum == 0,
        data@.len() <= NETWORK_MESSAGE_MAXSIZE ==> checksum == adler32(data@),
{
    if data.len() > NETWORK_MESSAGE_MAXSIZE {
        return 0;
    }
    let ghost s = data@;
    let ghost m: int = ADLER_MOD as int;
    let mut a: u32 = 1;
    let mut b: u32 = 0;
    let mut i: usize = 0;
    assert(s.take(0) =~= Seq::<u8>::empty());
    while i < data.len()
        invariant
            s == data@,
            m == ADLER_MOD as int,
            i <= data.len(),
            a < ADLER_MOD,
            b < ADLER_MOD,
            a as int == adler_low(s.take(i as int)) as int % m,
            b as int == adler_high(s.take(i as int)) as int % m,
        decreases data.len() - i,
    {
        let remaining = data.len() - i;
        let chunk_len = if remaining < ADLER_CHUNK { remaining } else { ADLER_CHUNK };
        let end = i + chunk_len;
        let mut j: usize = i;
        while j < end
            invariant
                s == data@,
                m == ADLER_MOD as int,
                i <= j <= end,
                end <= data.len(),
                end - i <= ADLER_CHUNK,
                a as int <= 65520 + 255 * (j - i),
                2 * (b as int) <= 2 * 65520 + 2 * 65520 * (j - i) + 255 * (j - i) * (j - i + 1),
                (a as int) % m == adler_low(s.take(j as int)) as int % m,
                (b as int) % m == adler_high(s.take(j as int)) as int % m,
            decreases end - j,
        {
            let byte = data[j];
            proof {
                lemma_chunk_bound((j - i) as int, a as int, b as int, byte as int);
                let t = s.take(j as int);
                let t1 = s.take(j as int + 1);
                assert(t1.drop_last() =~= t);
                assert(t1.last() == byte);
                assert(adler_low(t1) == adler_low(t) + byte);
                lemma_congruent_add(a as int, adler_low(t) as int, byte as int, m);
                assert(adler_high(t1) == adler_high(t) + adler_low(t1));
                let na = a as int + byte as int;
                assert(na % m == adler_low(t1) as int % m);
                lemma_congruent_add(b as int, adler_high(t) as int, na, m);
                lemma_congruent_add(na, adler_low(t1) as int, adler_high(t) as int, m);
            }
            a = a + byte as u32;
            b = b + a;
            j = j + 1;
        }
        a = a % ADLER_MOD;
        b = b % ADLER_MOD;
        i = end;
    }
    assert(s.take(s.len() as int) =~= s);
    proof {
        lemma_pack_halves(b, a);
    }
    (b << 16u32) | a
}

/// The fluid table indexed by client fluid id, giving the server fluid id.
pub open spec fn client_to_server_fluids() -> Seq<u8> {
    seq![0u8, 1, 7, 3, 27, 5, 6, 27, 8, 9, 14, 13, 12, 10, 11, 15, 16, 17]
}

fn fluid_table() -> (table: [u8; 18])
    ensures
        table@ == client_to_server_fluids(),
{
    let table: [u8; 18] = [0, 1, 7, 3, 27, 5, 6, 27, 8, 9, 14, 13, 12, 10, 11, 15, 16, 17];
    assert(table@ =~= client_to_server_fluids());
    table
}

/// Maps a server fluid id to the first client fluid id that stands for it,
/// or 0 when none does.
pub fn server_fluid_to_client(server_fluid: u8) -> (client: u8)
    ensures
        client < 18,
        (exists|i: int| 0 <= i < 18 && client_to_server_fluids()[i] == server_fluid) ==> (
        client_to_server_fluids()[client as int] == server_fluid && forall|j: int|
            0 <= j < client ==> client_to_server_fluids()[j] != server_fluid),
        !(exists|i: int| 0 <= i < 18 && client_to_server_fluids()[i] == server_fluid) ==> client
            == 0,
{
    let table = fluid_table();
    let mut i: usize = 0;
    while i < 18
        invariant
            0 <= i <= 18,
            table@ == client_to_server_fluids(),
            forall|j: int| 0 <= j < i ==> client_to_server_fluids()[j] != server_fluid,
        decreases 18 - i,
    {
        if table[i] == server_fluid {
            return i as u8;
        }
        i = i + 1;
    }
    0
}

/// Maps a client fluid id to the server fluid id; unknown ids give 0.
pub fn client_fluid_to_server(client_fluid: u8) -> (server: u8)
    ensures
        client_fluid < 18 ==> server == client_to_server_fluids()[client_fluid as int],
        client_fluid >= 18 ==> server == 0,
{
    if client_fluid >= 18 {
        return 0;
    }
    let table = fluid_table();
    table[client_fluid as usize]
}

#[verifier::external_type_specification]
#[verifier::external_body]
pub struct ExSystemTime(SystemTime);

/// The current wall-clock time (`std::time::SystemTime::now`); nothing is
/// stated of the value, which depends on the clock.
#[verifier::external_body]
fn system_now() -> SystemTime {
    SystemTime::now()
}

/// The time elapsed since the Unix epoch (`SystemTime::duration_since`), or
/// `None` for a time before it; nothing is stated of the value.
#[verifier::external_body]
fn elapsed_since_epoch(t: &SystemTime) -> Option<Duration> {
    t.duration_since(UNIX_EPOCH).ok()
}

/// The whole milliseconds of a duration (`Duration::as_millis`); nothing is
/// stated of the value, since durations are not modelled here.
#[verifier::external_body]
fn duration_as_millis(d: &Duration) -> u128 {
    d.as_millis()
}

/// A uniformly drawn integer in `[low, high]` (`rand::thread_rng().gen_range`
/// over an inclusive range, which panics only on an empty range).
#[verifier::external_body]
fn random_between(low: i64, high: i64) -> (value: i64)
    requires
        low <= high,
    ensures
        low <= value <= high,
{
    rand::thread_rng().gen_range(low..=high)
}

/// The milliseconds the server counts for a clock reading: the
/// milliseconds elapsed since the Unix epoch, saturated at `i64::MAX`; 0
/// for a clock before the epoch (`None`).
pub open spec fn millis_value(elapsed: Option<u128>) -> i64 {
    match elapsed {
        Some(m) => if m > 0x7fff_ffff_ffff_ffff {
            i64::MAX
        } else {
            m as i64
        },
        None => 0,
    }
}

/// The milliseconds the server counts for a clock reading (see
/// `millis_value`).
pub fn millis_of(elapsed: Option<u128>) -> (ms: i64)
    ensures
        ms == millis_value(elapsed),
{
    match elapsed {
        Some(m) => if m > 0x7fff_ffff_ffff_ffffu128 {
            i64::MAX
        } else {
            m as i64
        },
        None => 0,
    }
}

/// Milliseconds since the Unix epoch, saturated at `i64::MAX`; 0 when the
/// clock is before the epoch. The clock reading is whatever the system
/// gives: the result is `millis_value` of it.
pub fn get_milliseconds_time() -> (ms: i64)
    ensures
        ms >= 0,
        exists|elapsed: Option<u128>| ms == millis_value(elapsed),
{
    let now = system_now();
    let elapsed = match elapsed_since_epoch(&now) {
        Some(d) => Some(duration_as_millis(&d)),
        None => None,
    };
    let ms = millis_of(elapsed);
    assert(ms == millis_value(elapsed));
    ms
}

/// The server clock in milliseconds; the same clock as `get_milliseconds_time`.
pub fn otsys_time() -> (ms: i64)
    ensures
        ms >= 0,
        exists|elapsed: Option<u128>| ms == millis_value(elapsed),
{
    get_milliseconds_time()
}

/// A random number in `[min_val, max_val]`; `min_val` itself when the range
/// is empty or a single value.
pub fn uniform_random(min_val: i64, max_val: i64) -> (value: i64)
    ensures
        min_val >= max_val ==> value == min_val,
        min_val < max_val ==> min_val <= value <= max_val,
{
    if min_val >= max_val {
        return min_val;
    }
    random_between(min_val, max_val)
}

/// A random number between the two bounds, in whichever order they are given.
pub fn random_range(min_number: i32, max_number: i32) -> (value: i32)
    ensures
        min_number <= max_number ==> min_number <= value <= max_number,
        min_number > max_number ==> max_number <= value <= min_number,
{
    if min_number == max_number {
        return min_number;
    }
    let (low, high) = if min_number > max_number {
        (max_number, min_number)
    } else {
        (min_number, max_number)
    };
    let drawn = random_between(low as i64, high as i64);
    drawn as i32
}

} // verus!
