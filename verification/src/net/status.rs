//! The status protocol: the requests a server list sends, the binary
//! information answer, and the text helpers of the XML answer.
use vstd::prelude::*;
use crate::net::message::NetworkMessage;
use crate::net::output_message::{OutputMessage, OutputView};
use crate::net::packets::{w16, w32, w8, wstr};
use crate::net::requests::{rd32, rd8, rdstr};
use crate::util::date::{decimal_chars, digit_char};
use crate::util::text::{chars_of, string_push};
use crate::net::le::le_bytes;
use crate::net::output_message::out_write;

verus! {

/// The escaped form of a character in XML text.
pub open spec fn xml_escape_char(c: char) -> Seq<char> {
    if c == '&' {
        seq!['&', 'a', 'm', 'p', ';']
    } else if c == '<' {
        seq!['&', 'l', 't', ';']
    } else if c == '>' {
        seq!['&', 'g', 't', ';']
    } else if c == '"' {
        seq!['&', 'q', 'u', 'o', 't', ';']
    } else if c == '\'' {
        seq!['&', 'a', 'p', 'o', 's', ';']
    } else {
        seq![c]
    }
}

/// The escaped form of XML text: each character escaped in turn.
pub open spec fn xml_escaped(s: Seq<char>) -> Seq<char>
    decreases s.len(),
{
    if s.len() == 0 {
        Seq::empty()
    } else {
        xml_escaped(s.drop_last()) + xml_escape_char(s.last())
    }
}

fn push_all(s: &mut String, cs: &[char])
    ensures
        final(s)@ == old(s)@ + cs@,
{
    let mut i: usize = 0;
    while i < cs.len()
        invariant
            i <= cs@.len(),
            s@ == old(s)@ + cs@.take(i as int),
        decreases cs@.len() - i,
    {
        string_push(s, cs[i]);
        i = i + 1;
        assert(s@ =~= old(s)@ + cs@.take(i as int));
    }
    assert(cs@.take(cs@.len() as int) =~= cs@);
}

/// Escapes the characters that XML text cannot hold as they are.
pub fn xml_escape(s: &str) -> (r: String)
    ensures
        r@ == xml_escaped(s@),
{
    let chars = chars_of(s);
    let mut r = String::new();
    let mut i: usize = 0;
    while i < chars.len()
        invariant
            chars@ == s@,
            i <= chars@.len(),
            r@ == xml_escaped(s@.take(i as int)),
        decreases chars@.len() - i,
    {
        let c = chars[i];
        if c == '&' {
            push_all(&mut r, &['&', 'a', 'm', 'p', ';']);
        } else if c == '<' {
            push_all(&mut r, &['&', 'l', 't', ';']);
        } else if c == '>' {
            push_all(&mut r, &['&', 'g', 't', ';']);
        } else if c == '"' {
            push_all(&mut r, &['&', 'q', 'u', 'o', 't', ';']);
        } else if c == '\'' {
            push_all(&mut r, &['&', 'a', 'p', 'o', 's', ';']);
        } else {
            string_push(&mut r, c);
        }
        proof {
            assert(s@.take(i + 1).drop_last() =~= s@.take(i as int));
            assert(s@.take(i + 1).last() == c);
            assert(r@ =~= xml_escaped(s@.take(i + 1)));
        }
        i = i + 1;
    }
    assert(s@.take(chars@.len() as int) =~= s@);
    r
}

/// The dotted form of an address whose bytes, least significant first,
/// are the four parts.
pub open spec fn ip_text(ip: u32) -> Seq<char> {
    let b = le_bytes(ip as nat, 4);
    decimal_chars(b[0] as nat) + seq!['.'] + decimal_chars(b[1] as nat) + seq!['.'] + decimal_chars(
        b[2] as nat,
    ) + seq!['.'] + decimal_chars(b[3] as nat)
}

fn push_decimal_u8(s: &mut String, n: u8)
    ensures
        final(s)@ == old(s)@ + decimal_chars(n as nat),
{
    if n >= 100 {
        string_push(s, digit(n / 100));
        string_push(s, digit((n / 10) % 10));
        string_push(s, digit(n % 10));
        proof {
            reveal_with_fuel(decimal_chars, 3);
            assert(((n / 10) as nat) / 10 == (n / 100) as nat);
        }
    } else if n >= 10 {
        string_push(s, digit(n / 10));
        string_push(s, digit(n % 10));
        proof {
            reveal_with_fuel(decimal_chars, 2);
        }
    } else {
        string_push(s, digit(n));
    }
    assert(final(s)@ =~= old(s)@ + decimal_chars(n as nat)) by {
        reveal_with_fuel(decimal_chars, 3);
    }
}

fn digit(d: u8) -> (c: char)
    requires
        d < 10,
    ensures
        c == digit_char(d as int),
{
    match d {
        0 => '0',
        1 => '1',
        2 => '2',
        3 => '3',
        4 => '4',
        5 => '5',
        6 => '6',
        7 => '7',
        8 => '8',
        _ => '9',
    }
}

/// The dotted form of an address (see `ip_text`).
pub fn format_ip(ip: u32) -> (r: String)
    ensures
        r@ == ip_text(ip),
{
    let b0 = (ip & 0xFF) as u8;
    let b1 = ((ip >> 8) & 0xFF) as u8;
    let b2 = ((ip >> 16) & 0xFF) as u8;
    let b3 = ((ip >> 24) & 0xFF) as u8;
    proof {
        let b = le_bytes(ip as nat, 4);
        reveal_with_fuel(le_bytes, 5);
        assert(b0 == ip % 256) by (bit_vector)
            requires
                b0 == (ip & 0xFF) as u8;
        assert(b1 == (ip / 256) % 256) by (bit_vector)
            requires
                b1 == ((ip >> 8) & 0xFF) as u8;
        assert(b2 == (ip / 65536) % 256) by (bit_vector)
            requires
                b2 == ((ip >> 16) & 0xFF) as u8;
        assert(b3 == (ip / 16777216) % 256) by (bit_vector)
            requires
                b3 == ((ip >> 24) & 0xFF) as u8;
        assert(b[0] == b0);
        assert(b[1] == b1);
        assert(b[2] == b2);
        assert(b[3] == b3);
    }
    let mut r = String::new();
    push_decimal_u8(&mut r, b0);
    string_push(&mut r, '.');
    push_decimal_u8(&mut r, b1);
    string_push(&mut r, '.');
    push_decimal_u8(&mut r, b2);
    string_push(&mut r, '.');
    push_decimal_u8(&mut r, b3);
    assert(r@ =~= ip_text(ip));
    r
}

/// A request of the status protocol.
#[derive(Debug, Clone, PartialEq, Eq)]
pub enum StatusRequest {
    /// 0xFF: the XML status text.
    StatusString,
    /// 0x01: the binary information the bits of `requested` ask for, about
    /// the server and a character.
    Info { requested: u32, char_name: Vec<u8> },
    /// Any other request, which is not answered.
    Other(u8),
}

/// Decodes the request in `msg`: its type, then for an information request
/// the bits asked for and a character name.
pub fn decode_status_request(msg: &mut NetworkMessage) -> (r: StatusRequest)
    ensures
        ({
            let (t, m1) = rd8(old(msg)@);
            if t == 0xFF {
                r == StatusRequest::StatusString && final(msg)@ == m1
            } else if t == 0x01 {
                let (bits, m2) = rd32(m1);
                let (name, m3) = rdstr(m2);
                (r matches StatusRequest::Info { requested, char_name } && requested == bits && char_name@
                    == name) && final(msg)@ == m3
            } else {
                r == StatusRequest::Other(t) && final(msg)@ == m1
            }
        }),
{
    let request_type = msg.get_byte();
    match request_type {
        0xFF => StatusRequest::StatusString,
        0x01 => {
            let requested = msg.get_u32();
            let char_name = msg.get_string(None);
            StatusRequest::Info { requested, char_name }
        },
        _ => StatusRequest::Other(request_type),
    }
}

/// Basic server information: name, address, login port.
pub const REQUEST_BASIC_SERVER_INFO: u32 = 1;
/// Owner information: name and e-mail.
pub const REQUEST_OWNER_SERVER_INFO: u32 = 2;
/// Other information: message of the day, location, web site, uptime.
pub const REQUEST_MISC_SERVER_INFO: u32 = 4;
/// Player counts.
pub const REQUEST_PLAYERS_INFO: u32 = 32;
/// Server software.
pub const REQUEST_SERVER_SOFTWARE_INFO: u32 = 128;

/// What the information answer tells about the server.
#[derive(Debug, Clone)]
pub struct StatusInfo {
    pub server_name: Vec<u8>,
    pub ip: Vec<u8>,
    pub login_port: u16,
    pub owner_name: Vec<u8>,
    pub owner_email: Vec<u8>,
    pub motd: Vec<u8>,
    pub location: Vec<u8>,
    pub url: Vec<u8>,
    pub uptime: u64,
    pub max_players: u16,
    pub players_record: u32,
    pub free_premium: bool,
    pub software_name: Vec<u8>,
    pub software_version: Vec<u8>,
    pub client_version: Vec<u8>,
}

/// The information answer: a block per requested bit (0x10 basic, 0x11
/// owner, 0x12 other, 0x20 players with 0 online, 0x23 software), then
/// 0x01 with free premium.
pub open spec fn status_info(o: OutputView, requested: u32, i: StatusInfo) -> OutputView {
    let o1 = if requested & REQUEST_BASIC_SERVER_INFO != 0 {
        w16(wstr(wstr(w8(o, 0x10), i.server_name@), i.ip@), i.login_port)
    } else {
        o
    };
    let o2 = if requested & REQUEST_OWNER_SERVER_INFO != 0 {
        wstr(wstr(w8(o1, 0x11), i.owner_name@), i.owner_email@)
    } else {
        o1
    };
    let o3 = if requested & REQUEST_MISC_SERVER_INFO != 0 {
        out_write(wstr(wstr(wstr(w8(o2, 0x12), i.motd@), i.location@), i.url@), le_bytes(i.uptime as nat, 8))
    } else {
        o2
    };
    let o4 = if requested & REQUEST_PLAYERS_INFO != 0 {
        w32(w16(w16(w8(o3, 0x20), 0), i.max_players), i.players_record)
    } else {
        o3
    };
    let o5 = if requested & REQUEST_SERVER_SOFTWARE_INFO != 0 {
        wstr(wstr(wstr(w8(o4, 0x23), i.software_name@), i.software_version@), i.client_version@)
    } else {
        o4
    };
    if i.free_premium {
        w8(o5, 0x01)
    } else {
        o5
    }
}

/// Writes the information answer (see `status_info`).
pub fn write_status_info(output: &mut OutputMessage, requested: u32, info: &StatusInfo)
    ensures
        final(output)@ == status_info(old(output)@, requested, *info),
{
    if requested & REQUEST_BASIC_SERVER_INFO != 0 {
        output.add_byte(0x10);
        output.add_string(info.server_name.as_slice());
        output.add_string(info.ip.as_slice());
        output.add_u16(info.login_port);
    }
    if requested & REQUEST_OWNER_SERVER_INFO != 0 {
        output.add_byte(0x11);
        output.add_string(info.owner_name.as_slice());
        output.add_string(info.owner_email.as_slice());
    }
    if requested & REQUEST_MISC_SERVER_INFO != 0 {
        output.add_byte(0x12);
        output.add_string(info.motd.as_slice());
        output.add_string(info.location.as_slice());
        output.add_string(info.url.as_slice());
        output.add_u64(info.uptime);
    }
    if requested & REQUEST_PLAYERS_INFO != 0 {
        output.add_byte(0x20);
        output.add_u16(0);
        output.add_u16(info.max_players);
        output.add_u32(info.players_record);
    }
    if requested & REQUEST_SERVER_SOFTWARE_INFO != 0 {
        output.add_byte(0x23);
        output.add_string(info.software_name.as_slice());
        output.add_string(info.software_version.as_slice());
        output.add_string(info.client_version.as_slice());
    }
    if info.free_premium {
        output.add_byte(0x01);
    }
}

} // verus!

