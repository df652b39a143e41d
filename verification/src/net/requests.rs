//! The requests a game client sends: each packet's opcode and fields,
//! decoded from an incoming message.
use vstd::prelude::*;
use crate::map::{Direction, Position};
use crate::net::message::{
    read_effect, read_number, string_read_effect, string_read_value, MessageView, NetworkMessage,
    NETWORK_MESSAGE_MAXSIZE,
};
use crate::net::protocol_version::{speak_class_from_1098, translate_speak_class_from_client, ClientVersion};

verus! {

/// A request from a game client.
#[derive(Debug, Clone, PartialEq, Eq)]
pub enum ClientRequest {
    Logout,
    PingBack,
    AutoWalk { dirs: Vec<u8> },
    Walk(Direction),
    StopAutoWalk,
    Turn(Direction),
    Throw { from_pos: Position, sprite_id: u16, from_stackpos: u8, to_pos: Position, count: u8 },
    Purchase { sprite_id: u16, count: u8, amount: u8, ignore_cap: bool, in_backpacks: bool },
    Sale { sprite_id: u16, count: u8, amount: u8, ignore_equipped: bool },
    CloseShop,
    RequestTrade { pos: Position, sprite_id: u16, stackpos: u8, target_id: u32 },
    LookInTrade { counter_offer: bool, index: u8 },
    AcceptTrade,
    CloseTrade,
    UseItem { pos: Position, sprite_id: u16, stackpos: u8, index: u8 },
    UseItemEx {
        from_pos: Position,
        from_sprite_id: u16,
        from_stackpos: u8,
        to_pos: Position,
        to_sprite_id: u16,
        to_stackpos: u8,
    },
    UseWithCreature { from_pos: Position, from_sprite_id: u16, from_stackpos: u8, target_id: u32 },
    RotateItem { pos: Position, sprite_id: u16, stackpos: u8 },
    CloseContainer(u8),
    UpArrowContainer(u8),
    TextWindow { window_text_id: u32, text: Vec<u8> },
    LookAt { pos: Position, sprite_id: u16, stackpos: u8 },
    LookInBattleList(u32),
    Say { speak_type: u8, channel_id: Option<u16>, receiver: Option<Vec<u8>>, text: Vec<u8> },
    RequestChannels,
    OpenChannel(u16),
    CloseChannel(u16),
    OpenPrivateChannel(Vec<u8>),
    CloseNpcChannel,
    FightModes { fight_mode: u8, chase_mode: u8, safe_fight: u8 },
    Attack(u32),
    Follow(u32),
    InviteToParty(u32),
    JoinParty(u32),
    RevokePartyInvite(u32),
    PassPartyLeadership(u32),
    LeaveParty,
    EnableSharedPartyExp(bool),
    CreatePrivateChannel,
    ChannelInvite(Vec<u8>),
    ChannelExclude(Vec<u8>),
    CancelAttackAndFollow,
    UpdateContainer(u8),
    RequestOutfit,
    SetOutfit { look_type: u16, look_head: u8, look_body: u8, look_legs: u8, look_feet: u8, look_addons: u8 },
    AddVip(Vec<u8>),
    RemoveVip(u32),
    QuestLog,
    QuestLine(u16),
    /// A known request whose fields are read and dropped.
    Ignored(u8),
    /// An opcode the server does not know.
    Unknown(u8),
}

/// Reading a byte.
pub open spec fn rd8(m: MessageView) -> (u8, MessageView) {
    (read_number(m, 1) as u8, read_effect(m, 1))
}

/// Reading a little-endian `u16`.
pub open spec fn rd16(m: MessageView) -> (u16, MessageView) {
    (read_number(m, 2) as u16, read_effect(m, 2))
}

/// Reading a little-endian `u32`.
pub open spec fn rd32(m: MessageView) -> (u32, MessageView) {
    (read_number(m, 4) as u32, read_effect(m, 4))
}

/// Reading a string with a length prefix.
pub open spec fn rdstr(m: MessageView) -> (Seq<u8>, MessageView) {
    (string_read_value(m, None), string_read_effect(m, None))
}

/// Reading a position: x, y, floor.
pub open spec fn rdpos(m: MessageView) -> (Position, MessageView) {
    let (x, m1) = rd16(m);
    let (y, m2) = rd16(m1);
    let (z, m3) = rd8(m2);
    (Position { x, y, z }, m3)
}

/// Reading `n` bytes one by one.
pub open spec fn rdbytes(m: MessageView, n: nat) -> (Seq<u8>, MessageView)
    decreases n,
{
    if n == 0 {
        (Seq::empty(), m)
    } else {
        let (s, m1) = rdbytes(m, (n - 1) as nat);
        let (b, m2) = rd8(m1);
        (s.push(b), m2)
    }
}

/// Moving the cursor by `n` when the buffer allows it.
pub open spec fn skip(m: MessageView, n: int) -> MessageView {
    if m.position + n <= NETWORK_MESSAGE_MAXSIZE {
        MessageView { position: m.position + n, ..m }
    } else {
        m
    }
}

/// The speak classes whose say request names a receiver, and those that
/// name a channel, on the wire of `version`.
pub open spec fn names_receiver(version: ClientVersion, wire: u8) -> bool {
    if version == ClientVersion::V1098 {
        wire == 5 || wire == 16
    } else {
        wire == 6 || wire == 11
    }
}

/// Whether a say request of wire class `wire` names a channel.
pub open spec fn names_channel(version: ClientVersion, wire: u8) -> bool {
    if version == ClientVersion::V1098 {
        wire == 7 || wire == 14
    } else {
        wire == 7 || wire == 10
    }
}

/// The server's speak class for wire class `wire`.
pub open spec fn speak_from_wire(version: ClientVersion, wire: u8) -> u8 {
    if version == ClientVersion::V1098 {
        speak_class_from_1098(wire)
    } else {
        wire
    }
}

/// The walking direction of opcodes 0x65 to 0x6D (0x69 excepted).
pub open spec fn walk_direction(op: u8) -> Direction {
    if op == 0x65 {
        Direction::North
    } else if op == 0x66 {
        Direction::East
    } else if op == 0x67 {
        Direction::South
    } else if op == 0x68 {
        Direction::West
    } else if op == 0x6A {
        Direction::NorthEast
    } else if op == 0x6B {
        Direction::SouthEast
    } else if op == 0x6C {
        Direction::SouthWest
    } else {
        Direction::NorthWest
    }
}

/// The turning direction of opcodes 0x6F to 0x72.
pub open spec fn turn_direction(op: u8) -> Direction {
    if op == 0x6F {
        Direction::North
    } else if op == 0x70 {
        Direction::East
    } else if op == 0x71 {
        Direction::South
    } else {
        Direction::West
    }
}

/// Opcodes with no fields that ask for one thing.
pub open spec fn plain_request(op: u8) -> Option<ClientRequest> {
    if op == 0x14 {
        Some(ClientRequest::Logout)
    } else if op == 0x1D || op == 0x1E {
        Some(ClientRequest::PingBack)
    } else if op == 0x69 {
        Some(ClientRequest::StopAutoWalk)
    } else if op == 0x7C {
        Some(ClientRequest::CloseShop)
    } else if op == 0x7F {
        Some(ClientRequest::AcceptTrade)
    } else if op == 0x80 {
        Some(ClientRequest::CloseTrade)
    } else if op == 0x97 {
        Some(ClientRequest::RequestChannels)
    } else if op == 0x9E {
        Some(ClientRequest::CloseNpcChannel)
    } else if op == 0xA7 {
        Some(ClientRequest::LeaveParty)
    } else if op == 0xAA {
        Some(ClientRequest::CreatePrivateChannel)
    } else if op == 0xBE {
        Some(ClientRequest::CancelAttackAndFollow)
    } else if op == 0xD2 {
        Some(ClientRequest::RequestOutfit)
    } else if op == 0xF0 {
        Some(ClientRequest::QuestLog)
    } else if op == 0x8E || op == 0xC9 || op == 0xE7 || (0xF3 <= op <= 0xF8) {
        Some(ClientRequest::Ignored(op))
    } else if (0x65 <= op <= 0x6D) {
        Some(ClientRequest::Walk(walk_direction(op)))
    } else if (0x6F <= op <= 0x72) {
        Some(ClientRequest::Turn(turn_direction(op)))
    } else {
        None
    }
}

/// Opcodes with one `u32` field.
pub open spec fn u32_request(op: u8, v: u32) -> Option<ClientRequest> {
    if op == 0x8D {
        Some(ClientRequest::LookInBattleList(v))
    } else if op == 0xA1 {
        Some(ClientRequest::Attack(v))
    } else if op == 0xA2 {
        Some(ClientRequest::Follow(v))
    } else if op == 0xA3 {
        Some(ClientRequest::InviteToParty(v))
    } else if op == 0xA4 {
        Some(ClientRequest::JoinParty(v))
    } else if op == 0xA5 {
        Some(ClientRequest::RevokePartyInvite(v))
    } else if op == 0xA6 {
        Some(ClientRequest::PassPartyLeadership(v))
    } else if op == 0xDD {
        Some(ClientRequest::RemoveVip(v))
    } else {
        None
    }
}

/// Whether opcode `op` has one `u32` field.
pub open spec fn is_u32_request(op: u8) -> bool {
    op == 0x8D || op == 0xA1 || op == 0xA2 || op == 0xA3 || op == 0xA4 || op == 0xA5 || op == 0xA6
        || op == 0xDD
}

/// Whether `req` and `m1` are what decoding the fields of a request with
/// opcode `op` from `m` gives.
pub open spec fn decoded_body(op: u8, m: MessageView, version: ClientVersion, req: ClientRequest, m1: MessageView) -> bool {
    if plain_request(op) is Some {
        req == plain_request(op)->0 && m1 == m
    } else if is_u32_request(op) {
        let (v, ma) = rd32(m);
        req == u32_request(op, v)->0 && m1 == ma
    } else if op == 0x32 {
        let (a, ma) = rd32(m);
        let (b, mb) = rdstr(ma);
        req == ClientRequest::Ignored(op) && m1 == mb
    } else if op == 0x64 {
        let (n, ma) = rd8(m);
        let (dirs, mb) = rdbytes(ma, n as nat);
        (req matches ClientRequest::AutoWalk { dirs: d } && d@ == dirs) && m1 == mb
    } else if op == 0x73 {
        req == ClientRequest::Ignored(op) && m1 == rdpos(m).1
    } else if op == 0x77 {
        req == ClientRequest::Ignored(op) && m1 == rd16(m).1
    } else if op == 0x78 {
        let (a, ma) = rdpos(m);
        let (b, mb) = rd16(ma);
        let (c, mc) = rd8(mb);
        let (d, md) = rdpos(mc);
        let (e, me) = rd8(md);
        req == ClientRequest::Throw { from_pos: a, sprite_id: b, from_stackpos: c, to_pos: d, count: e }
            && m1 == me
    } else if op == 0x79 {
        req == ClientRequest::Ignored(op) && m1 == rd8(rd16(m).1).1
    } else if op == 0x7A {
        let (a, ma) = rd16(m);
        let (b, mb) = rd8(ma);
        let (c, mc) = rd8(mb);
        let (d, md) = rd8(mc);
        let (e, me) = rd8(md);
        req == ClientRequest::Purchase {
            sprite_id: a,
            count: b,
            amount: c,
            ignore_cap: d != 0,
            in_backpacks: e != 0,
        } && m1 == me
    } else if op == 0x7B {
        let (a, ma) = rd16(m);
        let (b, mb) = rd8(ma);
        let (c, mc) = rd8(mb);
        let (d, md) = rd8(mc);
        req == ClientRequest::Sale { sprite_id: a, count: b, amount: c, ignore_equipped: d != 0 } && m1
            == md
    } else if op == 0x7D {
        let (a, ma) = rdpos(m);
        let (b, mb) = rd16(ma);
        let (c, mc) = rd8(mb);
        let (d, md) = rd32(mc);
        req == ClientRequest::RequestTrade { pos: a, sprite_id: b, stackpos: c, target_id: d } && m1 == md
    } else if op == 0x7E {
        let (a, ma) = rd8(m);
        let (b, mb) = rd8(ma);
        req == ClientRequest::LookInTrade { counter_offer: a != 0, index: b } && m1 == mb
    } else if op == 0x82 {
        let (a, ma) = rdpos(m);
        let (b, mb) = rd16(ma);
        let (c, mc) = rd8(mb);
        let (d, md) = rd8(mc);
        req == ClientRequest::UseItem { pos: a, sprite_id: b, stackpos: c, index: d } && m1 == md
    } else if op == 0x83 {
        let (a, ma) = rdpos(m);
        let (b, mb) = rd16(ma);
        let (c, mc) = rd8(mb);
        let (d, md) = rdpos(mc);
        let (e, me) = rd16(md);
        let (f, mf) = rd8(me);
        req == ClientRequest::UseItemEx {
            from_pos: a,
            from_sprite_id: b,
            from_stackpos: c,
            to_pos: d,
            to_sprite_id: e,
            to_stackpos: f,
        } && m1 == mf
    } else if op == 0x84 {
        let (a, ma) = rdpos(m);
        let (b, mb) = rd16(ma);
        let (c, mc) = rd8(mb);
        let (d, md) = rd32(mc);
        req == ClientRequest::UseWithCreature {
            from_pos: a,
            from_sprite_id: b,
            from_stackpos: c,
            target_id: d,
        } && m1 == md
    } else if op == 0x85 || op == 0x8C {
        let (a, ma) = rdpos(m);
        let (b, mb) = rd16(ma);
        let (c, mc) = rd8(mb);
        req == (if op == 0x85 {
            ClientRequest::RotateItem { pos: a, sprite_id: b, stackpos: c }
        } else {
            ClientRequest::LookAt { pos: a, sprite_id: b, stackpos: c }
        }) && m1 == mc
    } else if op == 0x87 || op == 0x88 || op == 0xCA {
        let (a, ma) = rd8(m);
        req == (if op == 0x87 {
            ClientRequest::CloseContainer(a)
        } else if op == 0x88 {
            ClientRequest::UpArrowContainer(a)
        } else {
            ClientRequest::UpdateContainer(a)
        }) && m1 == ma
    } else if op == 0x89 {
        let (a, ma) = rd32(m);
        let (b, mb) = rdstr(ma);
        (req matches ClientRequest::TextWindow { window_text_id, text } && window_text_id == a && text@
            == b) && m1 == mb
    } else if op == 0x8A {
        req == ClientRequest::Ignored(op) && m1 == rdstr(rd32(rd8(m).1).1).1
    } else if op == 0x96 {
        let (wire, ma) = rd8(m);
        let (recv, mb) = if names_receiver(version, wire) {
            (Some(rdstr(ma).0), rdstr(ma).1)
        } else {
            (None::<Seq<u8>>, ma)
        };
        let (chan, mc) = if names_channel(version, wire) {
            (Some(rd16(mb).0), rd16(mb).1)
        } else {
            (None::<u16>, mb)
        };
        let (text, md) = rdstr(mc);
        (req matches ClientRequest::Say { speak_type, channel_id, receiver, text: t } && speak_type
            == speak_from_wire(version, wire) && channel_id == chan && t@ == text && match receiver {
            Some(r) => recv == Some(r@),
            None => recv is None,
        }) && m1 == md
    } else if op == 0x98 || op == 0x99 || op == 0xF1 {
        let (a, ma) = rd16(m);
        req == (if op == 0x98 {
            ClientRequest::OpenChannel(a)
        } else if op == 0x99 {
            ClientRequest::CloseChannel(a)
        } else {
            ClientRequest::QuestLine(a)
        }) && m1 == ma
    } else if op == 0x9A || op == 0xAB || op == 0xAC || op == 0xDC {
        let (a, ma) = rdstr(m);
        (match req {
            ClientRequest::OpenPrivateChannel(n) => op == 0x9A && n@ == a,
            ClientRequest::ChannelInvite(n) => op == 0xAB && n@ == a,
            ClientRequest::ChannelExclude(n) => op == 0xAC && n@ == a,
            ClientRequest::AddVip(n) => op == 0xDC && n@ == a,
            _ => false,
        }) && m1 == ma
    } else if op == 0xA0 {
        let (a, ma) = rd8(m);
        let (b, mb) = rd8(ma);
        let (c, mc) = rd8(mb);
        req == ClientRequest::FightModes { fight_mode: a, chase_mode: b, safe_fight: c } && m1 == mc
    } else if op == 0xA8 {
        let (a, ma) = rd8(m);
        req == ClientRequest::EnableSharedPartyExp(a != 0) && m1 == ma
    } else if op == 0xCB || op == 0xCC || op == 0xD4 {
        req == ClientRequest::Ignored(op) && m1 == skip(
            m,
            if op == 0xCB {
                5
            } else if op == 0xCC {
                3
            } else {
                1
            },
        )
    } else if op == 0xD3 {
        let (a, ma) = rd16(m);
        let (b, mb) = rd8(ma);
        let (c, mc) = rd8(mb);
        let (d, md) = rd8(mc);
        let (e, me) = rd8(md);
        let (f, mf) = rd8(me);
        req == ClientRequest::SetOutfit {
            look_type: a,
            look_head: b,
            look_body: c,
            look_legs: d,
            look_feet: e,
            look_addons: f,
        } && m1 == mf
    } else if op == 0xDE {
        req == ClientRequest::Ignored(op) && m1 == rd8(rd32(rdstr(rd32(m).1).1).1).1
    } else if op == 0xE6 {
        req == ClientRequest::Ignored(op) && m1 == rdstr(m).1
    } else if op == 0xE8 || op == 0xF2 {
        req == ClientRequest::Ignored(op) && m1 == rdstr(rdstr(rdstr(rdstr(m).1).1).1).1
    } else if op == 0xF9 {
        req == ClientRequest::Ignored(op) && m1 == rd8(rd8(rd32(m).1).1).1
    } else {
        req == ClientRequest::Unknown(op) && m1 == m
    }
}

/// Whether `req` and `m1` are what decoding a request from `m` gives: the
/// opcode, then its fields.
pub open spec fn decoded(m: MessageView, version: ClientVersion, req: ClientRequest, m1: MessageView) -> bool {
    decoded_body(rd8(m).0, rd8(m).1, version, req, m1)
}

fn read_pos(msg: &mut NetworkMessage) -> (p: Position)
    ensures
        (p, final(msg)@) == rdpos(old(msg)@),
{
    let x = msg.get_u16();
    let y = msg.get_u16();
    let z = msg.get_byte();
    Position { x, y, z }
}

fn read_bytes(msg: &mut NetworkMessage, n: u8) -> (bytes: Vec<u8>)
    ensures
        (bytes@, final(msg)@) == rdbytes(old(msg)@, n as nat),
{
    let mut bytes: Vec<u8> = Vec::new();
    let mut i: u8 = 0;
    while i < n
        invariant
            i <= n,
            (bytes@, msg@) == rdbytes(old(msg)@, i as nat),
        decreases n - i,
    {
        let b = msg.get_byte();
        bytes.push(b);
        i = i + 1;
    }
    bytes
}

fn skip_if_room(msg: &mut NetworkMessage, n: i16)
    requires
        0 <= n <= 5,
    ensures
        final(msg)@ == skip(old(msg)@, n as int),
{
    let pos = msg.get_buffer_position();
    if pos as usize + n as usize <= NETWORK_MESSAGE_MAXSIZE {
        msg.skip_bytes(n);
    }
}

fn decode_simple(msg: &mut NetworkMessage, op: u8) -> (r: ClientRequest)
    requires
        plain_request(op) is Some || is_u32_request(op),
    ensures
        plain_request(op) is Some ==> r == plain_request(op)->0 && final(msg)@ == old(msg)@,
        plain_request(op) is None ==> ({
            let (v, ma) = rd32(old(msg)@);
            r == u32_request(op, v)->0 && final(msg)@ == ma
        }),
{
    match op {
        0x14 => ClientRequest::Logout,
        0x1D | 0x1E => ClientRequest::PingBack,
        0x69 => ClientRequest::StopAutoWalk,
        0x7C => ClientRequest::CloseShop,
        0x7F => ClientRequest::AcceptTrade,
        0x80 => ClientRequest::CloseTrade,
        0x97 => ClientRequest::RequestChannels,
        0x9E => ClientRequest::CloseNpcChannel,
        0xA7 => ClientRequest::LeaveParty,
        0xAA => ClientRequest::CreatePrivateChannel,
        0xBE => ClientRequest::CancelAttackAndFollow,
        0xD2 => ClientRequest::RequestOutfit,
        0xF0 => ClientRequest::QuestLog,
        0x8E | 0xC9 | 0xE7 | 0xF3..=0xF8 => ClientRequest::Ignored(op),
        0x65 => ClientRequest::Walk(Direction::North),
        0x66 => ClientRequest::Walk(Direction::East),
        0x67 => ClientRequest::Walk(Direction::South),
        0x68 => ClientRequest::Walk(Direction::West),
        0x6A => ClientRequest::Walk(Direction::NorthEast),
        0x6B => ClientRequest::Walk(Direction::SouthEast),
        0x6C => ClientRequest::Walk(Direction::SouthWest),
        0x6D => ClientRequest::Walk(Direction::NorthWest),
        0x6F => ClientRequest::Turn(Direction::North),
        0x70 => ClientRequest::Turn(Direction::East),
        0x71 => ClientRequest::Turn(Direction::South),
        0x72 => ClientRequest::Turn(Direction::West),
        _ => {
            let v = msg.get_u32();
            match op {
                0x8D => ClientRequest::LookInBattleList(v),
                0xA1 => ClientRequest::Attack(v),
                0xA2 => ClientRequest::Follow(v),
                0xA3 => ClientRequest::InviteToParty(v),
                0xA4 => ClientRequest::JoinParty(v),
                0xA5 => ClientRequest::RevokePartyInvite(v),
                0xA6 => ClientRequest::PassPartyLeadership(v),
                _ => ClientRequest::RemoveVip(v),
            }
        },
    }
}

fn decode_items(msg: &mut NetworkMessage, op: u8) -> (r: ClientRequest)
    requires
        op == 0x78 || op == 0x7A || op == 0x7B || op == 0x7D || op == 0x7E || op == 0x82 || op == 0x83
            || op == 0x84 || op == 0x85 || op == 0x8C,
    ensures
        decoded_body(op, old(msg)@, ClientVersion::V860, r, final(msg)@),
{
    match op {
        0x78 => {
            let from_pos = read_pos(msg);
            let sprite_id = msg.get_u16();
            let from_stackpos = msg.get_byte();
            let to_pos = read_pos(msg);
            let count = msg.get_byte();
            ClientRequest::Throw { from_pos, sprite_id, from_stackpos, to_pos, count }
        },
        0x7A => {
            let sprite_id = msg.get_u16();
            let count = msg.get_byte();
            let amount = msg.get_byte();
            let ignore_cap = msg.get_byte() != 0;
            let in_backpacks = msg.get_byte() != 0;
            ClientRequest::Purchase { sprite_id, count, amount, ignore_cap, in_backpacks }
        },
        0x7B => {
            let sprite_id = msg.get_u16();
            let count = msg.get_byte();
            let amount = msg.get_byte();
            let ignore_equipped = msg.get_byte() != 0;
            ClientRequest::Sale { sprite_id, count, amount, ignore_equipped }
        },
        0x7D => {
            let pos = read_pos(msg);
            let sprite_id = msg.get_u16();
            let stackpos = msg.get_byte();
            let target_id = msg.get_u32();
            ClientRequest::RequestTrade { pos, sprite_id, stackpos, target_id }
        },
        0x7E => {
            let counter_offer = msg.get_byte() != 0;
            let index = msg.get_byte();
            ClientRequest::LookInTrade { counter_offer, index }
        },
        0x82 => {
            let pos = read_pos(msg);
            let sprite_id = msg.get_u16();
            let stackpos = msg.get_byte();
            let index = msg.get_byte();
            ClientRequest::UseItem { pos, sprite_id, stackpos, index }
        },
        0x83 => {
            let from_pos = read_pos(msg);
            let from_sprite_id = msg.get_u16();
            let from_stackpos = msg.get_byte();
            let to_pos = read_pos(msg);
            let to_sprite_id = msg.get_u16();
            let to_stackpos = msg.get_byte();
            ClientRequest::UseItemEx {
                from_pos,
                from_sprite_id,
                from_stackpos,
                to_pos,
                to_sprite_id,
                to_stackpos,
            }
        },
        0x84 => {
            let from_pos = read_pos(msg);
            let from_sprite_id = msg.get_u16();
            let from_stackpos = msg.get_byte();
            let target_id = msg.get_u32();
            ClientRequest::UseWithCreature { from_pos, from_sprite_id, from_stackpos, target_id }
        },
        _ => {
            let pos = read_pos(msg);
            let sprite_id = msg.get_u16();
            let stackpos = msg.get_byte();
            if op == 0x85 {
                ClientRequest::RotateItem { pos, sprite_id, stackpos }
            } else {
                ClientRequest::LookAt { pos, sprite_id, stackpos }
            }
        },
    }
}

fn decode_say(msg: &mut NetworkMessage, version: ClientVersion) -> (r: ClientRequest)
    ensures
        decoded_body(0x96, old(msg)@, version, r, final(msg)@),
{
    let wire_type = msg.get_byte();
    let is_1098 = version.is_1098();
    let (recv_a, recv_b, chan_a, chan_b): (u8, u8, u8, u8) = if is_1098 {
        (5, 16, 7, 14)
    } else {
        (6, 11, 7, 10)
    };
    let receiver = if wire_type == recv_a || wire_type == recv_b {
        Some(msg.get_string(None))
    } else {
        None
    };
    let channel_id = if wire_type == chan_a || wire_type == chan_b {
        Some(msg.get_u16())
    } else {
        None
    };
    let text = msg.get_string(None);
    let speak_type = translate_speak_class_from_client(version, wire_type);
    ClientRequest::Say { speak_type, channel_id, receiver, text }
}

fn decode_other(msg: &mut NetworkMessage, op: u8, version: ClientVersion) -> (r: ClientRequest)
    requires
        plain_request(op) is None,
        !is_u32_request(op),
        !(op == 0x78 || op == 0x7A || op == 0x7B || op == 0x7D || op == 0x7E || op == 0x82 || op == 0x83
            || op == 0x84 || op == 0x85 || op == 0x8C),
        op != 0x96,
    ensures
        decoded_body(op, old(msg)@, version, r, final(msg)@),
{
    match op {
        0x32 => {
            let _a = msg.get_u32();
            let _b = msg.get_string(None);
            ClientRequest::Ignored(op)
        },
        0x64 => {
            let n = msg.get_byte();
            let dirs = read_bytes(msg, n);
            ClientRequest::AutoWalk { dirs }
        },
        0x73 => {
            let _p = read_pos(msg);
            ClientRequest::Ignored(op)
        },
        0x77 => {
            let _s = msg.get_u16();
            ClientRequest::Ignored(op)
        },
        0x79 => {
            let _id = msg.get_u16();
            let _count = msg.get_byte();
            ClientRequest::Ignored(op)
        },
        0x87 => ClientRequest::CloseContainer(msg.get_byte()),
        0x88 => ClientRequest::UpArrowContainer(msg.get_byte()),
        0xCA => ClientRequest::UpdateContainer(msg.get_byte()),
        0x89 => {
            let window_text_id = msg.get_u32();
            let text = msg.get_string(None);
            ClientRequest::TextWindow { window_text_id, text }
        },
        0x8A => {
            let _door_id = msg.get_byte();
            let _window = msg.get_u32();
            let _text = msg.get_string(None);
            ClientRequest::Ignored(op)
        },
        0x98 => ClientRequest::OpenChannel(msg.get_u16()),
        0x99 => ClientRequest::CloseChannel(msg.get_u16()),
        0xF1 => ClientRequest::QuestLine(msg.get_u16()),
        0x9A => ClientRequest::OpenPrivateChannel(msg.get_string(None)),
        0xAB => ClientRequest::ChannelInvite(msg.get_string(None)),
        0xAC => ClientRequest::ChannelExclude(msg.get_string(None)),
        0xDC => ClientRequest::AddVip(msg.get_string(None)),
        0xA0 => {
            let fight_mode = msg.get_byte();
            let chase_mode = msg.get_byte();
            let safe_fight = msg.get_byte();
            ClientRequest::FightModes { fight_mode, chase_mode, safe_fight }
        },
        0xA8 => ClientRequest::EnableSharedPartyExp(msg.get_byte() != 0),
        0xCB => {
            skip_if_room(msg, 5);
            ClientRequest::Ignored(op)
        },
        0xCC => {
            skip_if_room(msg, 3);
            ClientRequest::Ignored(op)
        },
        0xD4 => {
            skip_if_room(msg, 1);
            ClientRequest::Ignored(op)
        },
        0xD3 => {
            let look_type = msg.get_u16();
            let look_head = msg.get_byte();
            let look_body = msg.get_byte();
            let look_legs = msg.get_byte();
            let look_feet = msg.get_byte();
            let look_addons = msg.get_byte();
            ClientRequest::SetOutfit { look_type, look_head, look_body, look_legs, look_feet, look_addons }
        },
        0xDE => {
            let _guid = msg.get_u32();
            let _desc = msg.get_string(None);
            let _icon = msg.get_u32();
            let _notify = msg.get_byte();
            ClientRequest::Ignored(op)
        },
        0xE6 => {
            let _m = msg.get_string(None);
            ClientRequest::Ignored(op)
        },
        0xE8 | 0xF2 => {
            let _a = msg.get_string(None);
            let _b = msg.get_string(None);
            let _c = msg.get_string(None);
            let _d = msg.get_string(None);
            ClientRequest::Ignored(op)
        },
        0xF9 => {
            let _a = msg.get_u32();
            let _b = msg.get_byte();
            let _c = msg.get_byte();
            ClientRequest::Ignored(op)
        },
        _ => ClientRequest::Unknown(op),
    }
}

/// Decodes a game packet as a session receives it: before the session is
/// accepted (its login finished) packets are ignored and the message is
/// left as it is; afterwards the packet is decoded (see
/// `decode_client_request`).
pub fn receive_client_request(msg: &mut NetworkMessage, version: ClientVersion, accept_packets: bool) -> (r: Option<ClientRequest>)
    ensures
        !accept_packets ==> r is None && final(msg)@ == old(msg)@,
        accept_packets ==> (r matches Some(req) && decoded(old(msg)@, version, req, final(msg)@)),
{
    if !accept_packets {
        return None;
    }
    Some(decode_client_request(msg, version))
}

/// Decodes the request in `msg` from a client of `version`: its opcode,
/// then the fields that opcode carries (see `decoded`).
pub fn decode_client_request(msg: &mut NetworkMessage, version: ClientVersion) -> (r: ClientRequest)
    ensures
        decoded(old(msg)@, version, r, final(msg)@),
{
    let op = msg.get_byte();
    if op == 0x14 || op == 0x1D || op == 0x1E || op == 0x69 || op == 0x7C || op == 0x7F || op == 0x80
        || op == 0x97 || op == 0x9E || op == 0xA7 || op == 0xAA || op == 0xBE || op == 0xD2 || op
        == 0xF0 || op == 0x8E || op == 0xC9 || op == 0xE7 || (0xF3 <= op && op <= 0xF8) || (0x65 <= op
        && op <= 0x6D) || (0x6F <= op && op <= 0x72) || op == 0x8D || op == 0xA1 || op == 0xA2 || op
        == 0xA3 || op == 0xA4 || op == 0xA5 || op == 0xA6 || op == 0xDD {
        decode_simple(msg, op)
    } else if op == 0x78 || op == 0x7A || op == 0x7B || op == 0x7D || op == 0x7E || op == 0x82 || op
        == 0x83 || op == 0x84 || op == 0x85 || op == 0x8C {
        decode_items(msg, op)
    } else if op == 0x96 {
        decode_say(msg, version)
    } else {
        decode_other(msg, op, version)
    }
}

} // verus!

