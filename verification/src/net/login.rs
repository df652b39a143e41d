//! The login protocol: reading a client's login request and writing the
//! character list or the reason a login is refused.
use vstd::prelude::*;
use crate::net::le::le_bytes;
use crate::net::message::NetworkMessage;
use crate::net::output_message::{out_write, OutputMessage, OutputView};
use crate::net::packets::{w16, w32, w8, wstr};
use crate::net::protocol_version::ClientVersion;
use crate::net::requests::{rd16, rd32, rdstr, skip};
use crate::net::game_login::{protocol_message, protocol_text, WorldState};
use crate::util::text::push_text;

verus! {

/// The decimal digits of `n`, most significant first.
pub open spec fn decimal(n: nat) -> Seq<u8>
    decreases n,
{
    if n < 10 {
        seq![(48 + n) as u8]
    } else {
        decimal(n / 10).push((48 + n % 10) as u8)
    }
}

/// Appends the decimal digits of `n` to `out`.
pub fn push_decimal(out: &mut Vec<u8>, n: u32)
    ensures
        final(out)@ == old(out)@ + decimal(n as nat),
    decreases n,
{
    if n < 10 {
        out.push(48 + n as u8);
        assert(old(out)@ + decimal(n as nat) =~= old(out)@.push((48 + n) as u8));
    } else {
        push_decimal(out, n / 10);
        let d = (n % 10) as u8;
        out.push(48 + d);
        assert(old(out)@ + decimal(n as nat) =~= (old(out)@ + decimal((n / 10) as nat)).push(
            (48 + n % 10) as u8,
        ));
    }
}

/// Why a login is refused before the account is checked.
#[derive(Debug, Clone, Copy, PartialEq, Eq, Structural)]
pub enum LoginRefusal {
    /// The client is older than 7.61.
    TooOld,
    /// The client's protocol is outside the server's range; the range's
    /// lowest number is given.
    WrongVersion { min: u16 },
}

/// The protocol number a login request announces, and the state after its
/// header: the operating system (2 bytes), the version, then the file
/// signatures (17 bytes for 10.98, else 12).
pub open spec fn login_header(m: crate::net::message::MessageView, version: ClientVersion) -> (u16, crate::net::message::MessageView) {
    let m1 = skip(m, 2);
    let (v, m2) = rd16(m1);
    (v, skip(m2, if version == ClientVersion::V1098 { 17 } else { 12 }))
}

fn skip_some(msg: &mut NetworkMessage, n: i16)
    requires
        0 <= n <= 17,
    ensures
        final(msg)@ == skip(old(msg)@, n as int),
{
    let pos = msg.get_buffer_position();
    if pos as usize + n as usize <= crate::net::message::NETWORK_MESSAGE_MAXSIZE {
        msg.skip_bytes(n);
    }
}

/// Reads the header of a login request (see `login_header`) and returns
/// the protocol number it announces.
pub fn read_login_header(msg: &mut NetworkMessage, version: ClientVersion) -> (v: u16)
    ensures
        (v, final(msg)@) == login_header(old(msg)@, version),
{
    skip_some(msg, 2);
    let v = msg.get_u16();
    if version.is_1098() {
        skip_some(msg, 17);
    } else {
        skip_some(msg, 12);
    }
    v
}

/// Whether a login announcing protocol `client` is refused before its
/// credentials are read: too old up to 7.60; else outside the range of
/// `version`.
pub open spec fn login_refusal(client: u16, version: ClientVersion) -> Option<LoginRefusal> {
    let (min, max) = if version == ClientVersion::V1098 {
        (1097u16, 1098u16)
    } else {
        (860u16, 860u16)
    };
    if client <= 760 {
        Some(LoginRefusal::TooOld)
    } else if client < min || client > max {
        Some(LoginRefusal::WrongVersion { min })
    } else {
        None
    }
}

/// Why a login announcing protocol `client` is refused, if it is.
pub fn check_login_version(client: u16, version: ClientVersion) -> (r: Option<LoginRefusal>)
    ensures
        r == login_refusal(client, version),
{
    let min = version.min_version();
    let max = version.max_version();
    if client <= 760 {
        Some(LoginRefusal::TooOld)
    } else if client < min || client > max {
        Some(LoginRefusal::WrongVersion { min })
    } else {
        None
    }
}

/// The cipher key and credentials of a login request.
#[derive(Debug, Clone, PartialEq, Eq)]
pub struct LoginCredentials {
    pub key: [u32; 4],
    pub account: Vec<u8>,
    pub password: Vec<u8>,
}

/// Reads the cipher key (four `u32`) and the account name and password
/// strings of a login request.
pub fn read_login_credentials(msg: &mut NetworkMessage) -> (c: LoginCredentials)
    ensures
        ({
            let (k0, m0) = rd32(old(msg)@);
            let (k1, m1) = rd32(m0);
            let (k2, m2) = rd32(m1);
            let (k3, m3) = rd32(m2);
            let (a, m4) = rdstr(m3);
            let (p, m5) = rdstr(m4);
            &&& c.key@ == seq![k0, k1, k2, k3]
            &&& c.account@ == a
            &&& c.password@ == p
            &&& final(msg)@ == m5
        }),
{
    let k0 = msg.get_u32();
    let k1 = msg.get_u32();
    let k2 = msg.get_u32();
    let k3 = msg.get_u32();
    let account = msg.get_string(None);
    let password = msg.get_string(None);
    let key = [k0, k1, k2, k3];
    assert(key@ =~= seq![k0, k1, k2, k3]);
    LoginCredentials { key, account, password }
}

/// The refusal message of a login: 0x0B for 10.98, else 0x0A, then the
/// text.
pub fn write_login_error(output: &mut OutputMessage, version: ClientVersion, text: &[u8])
    ensures
        final(output)@ == wstr(
            w8(old(output)@, if version == ClientVersion::V1098 { 0x0Bu8 } else { 0x0Au8 }),
            text@,
        ),
{
    output.add_byte(if version.is_1098() { 0x0B } else { 0x0A });
    output.add_string(text);
}

/// A character of an account as the character list shows it.
#[derive(Debug, Clone)]
pub struct CharacterEntry {
    pub name: Vec<u8>,
    pub world_ip: u32,
    pub world_port: u16,
}

/// What the character list of a successful login shows.
#[derive(Debug, Clone)]
pub struct CharacterListData {
    pub account: Vec<u8>,
    pub password: Vec<u8>,
    pub motd: Vec<u8>,
    pub motd_num: u32,
    pub server_name: Vec<u8>,
    pub ip: Vec<u8>,
    pub game_port: u16,
    pub characters: Vec<CharacterEntry>,
    pub free_premium: bool,
    pub premium_days: u16,
    pub now: u32,
}

/// The message of the day block: 0x14 and the text "number\nmessage",
/// nothing when there is no message.
pub open spec fn wmotd(o: OutputView, d: CharacterListData) -> OutputView {
    if d.motd@.len() == 0 {
        o
    } else {
        wstr(w8(o, 0x14), decimal(d.motd_num as nat) + seq![10u8] + d.motd@)
    }
}

/// The 8.60 character entries: name, world name, world address and port.
pub open spec fn wchars860(o: OutputView, cs: Seq<CharacterEntry>, server: Seq<u8>) -> OutputView
    decreases cs.len(),
{
    if cs.len() == 0 {
        o
    } else {
        let c = cs.last();
        w16(w32(wstr(wstr(wchars860(o, cs.drop_last(), server), c.name@), server), c.world_ip), c.world_port)
    }
}

/// The 10.98 character entries: world 0 and the name.
pub open spec fn wchars1098(o: OutputView, cs: Seq<CharacterEntry>) -> OutputView
    decreases cs.len(),
{
    if cs.len() == 0 {
        o
    } else {
        wstr(w8(wchars1098(o, cs.drop_last()), 0), cs.last().name@)
    }
}

/// The end of the premium time shown to a 10.98 client: none with free
/// premium or no premium days, else `now` plus the days.
pub open spec fn premium_until(d: CharacterListData) -> int {
    if d.free_premium || d.premium_days == 0 {
        0
    } else {
        d.now + d.premium_days * 86400
    }
}

/// The character list of a successful login, in the layout of `version`.
pub open spec fn character_list(o: OutputView, version: ClientVersion, d: CharacterListData) -> OutputView {
    let count = (d.characters@.len() % 256) as u8;
    if version == ClientVersion::V1098 {
        let o1 = wmotd(wstr(w8(o, 0x28), d.account@ + seq![10u8] + d.password@), d);
        let o2 = w8(w16(wstr(wstr(w8(w8(w8(o1, 0x64), 1), 0), d.server_name@), d.ip@), d.game_port), 0);
        let o3 = wchars1098(w8(o2, count), d.characters@);
        let premium = d.free_premium || d.premium_days > 0;
        w32(w8(w8(o3, 0), if premium { 1u8 } else { 0u8 }), premium_until(d) as u32)
    } else {
        let o1 = wmotd(o, d);
        let o2 = wchars860(w8(w8(o1, 0x64), count), d.characters@, d.server_name@);
        w16(o2, if d.free_premium { 0xFFFFu16 } else { d.premium_days })
    }
}

fn write_motd(output: &mut OutputMessage, d: &CharacterListData)
    ensures
        final(output)@ == wmotd(old(output)@, *d),
{
    if d.motd.len() > 0 {
        output.add_byte(0x14);
        let mut text: Vec<u8> = Vec::new();
        push_decimal(&mut text, d.motd_num);
        text.push(10);
        let mut i: usize = 0;
        let ghost base = text@;
        assert(base =~= decimal(d.motd_num as nat) + seq![10u8]);
        while i < d.motd.len()
            invariant
                i <= d.motd@.len(),
                text@ == base + d.motd@.take(i as int),
            decreases d.motd@.len() - i,
        {
            text.push(d.motd[i]);
            i = i + 1;
            assert(text@ =~= base + d.motd@.take(i as int));
        }
        assert(d.motd@.take(d.motd@.len() as int) =~= d.motd@);
        assert(text@ =~= decimal(d.motd_num as nat) + seq![10u8] + d.motd@);
        output.add_string(text.as_slice());
    }
}

/// Writes the character list of a successful login (see
/// `character_list`); the premium end must fit in a `u32`.
pub fn write_character_list(output: &mut OutputMessage, version: ClientVersion, d: &CharacterListData)
    requires
        premium_until(*d) <= u32::MAX,
    ensures
        final(output)@ == character_list(old(output)@, version, *d),
{
    let n = d.characters.len();
    let count: u8 = (n % 256) as u8;
    if version.is_1098() {
        output.add_byte(0x28);
        let mut session: Vec<u8> = Vec::new();
        let mut i: usize = 0;
        while i < d.account.len()
            invariant
                i <= d.account@.len(),
                session@ == d.account@.take(i as int),
            decreases d.account@.len() - i,
        {
            session.push(d.account[i]);
            i = i + 1;
            assert(session@ =~= d.account@.take(i as int));
        }
        session.push(10);
        let ghost base = session@;
        let mut j: usize = 0;
        while j < d.password.len()
            invariant
                j <= d.password@.len(),
                session@ == base + d.password@.take(j as int),
            decreases d.password@.len() - j,
        {
            session.push(d.password[j]);
            j = j + 1;
            assert(session@ =~= base + d.password@.take(j as int));
        }
        assert(d.account@.take(d.account@.len() as int) =~= d.account@);
        assert(d.password@.take(d.password@.len() as int) =~= d.password@);
        assert(session@ =~= d.account@ + seq![10u8] + d.password@);
        output.add_string(session.as_slice());
        write_motd(output, d);
        output.add_byte(0x64);
        output.add_byte(1);
        output.add_byte(0);
        output.add_string(d.server_name.as_slice());
        output.add_string(d.ip.as_slice());
        output.add_u16(d.game_port);
        output.add_byte(0);
        output.add_byte(count);
        let ghost start = output@;
        let mut k: usize = 0;
        while k < n
            invariant
                n == d.characters@.len(),
                k <= n,
                output@ == wchars1098(start, d.characters@.take(k as int)),
            decreases n - k,
        {
            output.add_byte(0);
            output.add_string(d.characters[k].name.as_slice());
            proof {
                assert(d.characters@.take(k + 1).drop_last() =~= d.characters@.take(k as int));
            }
            k = k + 1;
        }
        assert(d.characters@.take(n as int) =~= d.characters@);
        let premium = d.free_premium || d.premium_days > 0;
        output.add_byte(0);
        output.add_byte(if premium { 1 } else { 0 });
        let until: u32 = if d.free_premium {
            0
        } else if d.premium_days > 0 {
            d.now + (d.premium_days as u32) * 86400
        } else {
            0
        };
        output.add_u32(until);
    } else {
        write_motd(output, d);
        output.add_byte(0x64);
        output.add_byte(count);
        let ghost start = output@;
        let mut k: usize = 0;
        while k < n
            invariant
                n == d.characters@.len(),
                k <= n,
                output@ == wchars860(start, d.characters@.take(k as int), d.server_name@),
            decreases n - k,
        {
            let c = &d.characters[k];
            output.add_string(c.name.as_slice());
            output.add_string(d.server_name.as_slice());
            output.add_u32(c.world_ip);
            output.add_u16(c.world_port);
            proof {
                assert(d.characters@.take(k + 1).drop_last() =~= d.characters@.take(k as int));
            }
            k = k + 1;
        }
        assert(d.characters@.take(n as int) =~= d.characters@);
        output.add_u16(if d.free_premium { 0xFFFF } else { d.premium_days });
    }
}

/// The text a login refused for its protocol is told: clients up to 7.60
/// are told 8.60, others the lowest protocol allowed (see `protocol_text`).
pub open spec fn login_refusal_text(r: LoginRefusal) -> Seq<char> {
    match r {
        LoginRefusal::TooOld => "Only clients with protocol 8.60 allowed!"@,
        LoginRefusal::WrongVersion { min } => protocol_text(min),
    }
}

/// The text a login refused for its protocol is told (see
/// `login_refusal_text`).
pub fn login_refusal_message(r: LoginRefusal) -> (s: String)
    ensures
        s@ == login_refusal_text(r),
{
    match r {
        LoginRefusal::TooOld => {
            let mut s = String::new();
            push_text(&mut s, "Only clients with protocol 8.60 allowed!");
            s
        },
        LoginRefusal::WrongVersion { min } => protocol_message(min),
    }
}

/// The text a login is refused with while the world is starting up, under
/// maintenance or closed; none otherwise.
pub open spec fn login_world_text(world: WorldState) -> Option<Seq<char>> {
    match world {
        WorldState::Startup => Some("Gameworld is starting up. Please wait."@),
        WorldState::Maintain => Some("Gameworld is under maintenance. Please re-connect in a while."@),
        WorldState::Closed => Some("Server is currently closed."@),
        _ => None,
    }
}

/// The text a login is refused with in world state `world`, if any (see
/// `login_world_text`).
pub fn login_world_refusal(world: WorldState) -> (m: Option<String>)
    ensures
        match login_world_text(world) {
            Some(t) => m matches Some(s) && s@ == t,
            None => m is None,
        },
{
    let t = match world {
        WorldState::Startup => "Gameworld is starting up. Please wait.",
        WorldState::Maintain => "Gameworld is under maintenance. Please re-connect in a while.",
        WorldState::Closed => "Server is currently closed.",
        _ => {
            return None;
        },
    };
    let mut s = String::new();
    push_text(&mut s, t);
    Some(s)
}

} // verus!
