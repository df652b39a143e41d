//! Layouts of the server-to-client game packets: each writer appends one
//! packet to an outgoing message, byte by byte as the client reads it.
use vstd::prelude::*;
use vstd::string::StringSliceAdditionalSpecFns;
use vstd::utf8::encode_utf8;
use crate::map::{direction_number, Direction, Position};
use crate::net::le::le_bytes;
use crate::net::output_message::{out_write, OutputMessage, OutputView};
use crate::net::protocol_version::{
    message_class_to_1098, speak_class_to_1098, translate_message_class_to_client,
    translate_speak_class_to_client, ClientVersion,
};

verus! {

/// Writing one byte.
pub open spec fn w8(o: OutputView, b: u8) -> OutputView {
    out_write(o, seq![b])
}

/// Writing a little-endian `u16`.
pub open spec fn w16(o: OutputView, v: u16) -> OutputView {
    out_write(o, le_bytes(v as nat, 2))
}

/// Writing a little-endian `u32`.
pub open spec fn w32(o: OutputView, v: u32) -> OutputView {
    out_write(o, le_bytes(v as nat, 4))
}

/// Writing a string: its length as a `u16` (truncated), then its bytes.
pub open spec fn wstr(o: OutputView, data: Seq<u8>) -> OutputView {
    out_write(out_write(o, le_bytes((data.len() % 65536) as nat, 2)), data)
}

/// Writing a position: x, y, then the floor.
pub open spec fn wpos(o: OutputView, p: Position) -> OutputView {
    w8(w16(w16(o, p.x), p.y), p.z)
}

/// The wire number of speak class `c` for `version`.
pub open spec fn speak_wire(version: ClientVersion, c: u8) -> u8 {
    if version == ClientVersion::V1098 {
        speak_class_to_1098(c)
    } else {
        c
    }
}

/// The wire number of message class `c` for `version`.
pub open spec fn message_wire(version: ClientVersion, c: u8) -> u8 {
    if version == ClientVersion::V1098 {
        message_class_to_1098(c)
    } else {
        c
    }
}

/// A creature's health bar: 0x8C, its id, the percentage.
pub fn write_creature_health(output: &mut OutputMessage, creature_id: u32, health_percent: u8)
    ensures
        final(output)@ == w8(w32(w8(old(output)@, 0x8C), creature_id), health_percent),
{
    output.add_byte(0x8C);
    output.add_u32(creature_id);
    output.add_byte(health_percent);
}

/// The place of a creature in a tile update: its position and stack index,
/// or, from stack index 10 on, 0xFFFF and its id.
pub open spec fn wthing(o: OutputView, pos: Position, stackpos: u8, creature_id: u32) -> OutputView {
    if stackpos >= 10 {
        w32(w16(o, 0xFFFF), creature_id)
    } else {
        w8(wpos(o, pos), stackpos)
    }
}

/// A creature turning: 0x6B, its place, 0x63, its id, the direction, and
/// for 10.98 a walk-through flag of 0.
pub fn write_creature_turn(
    output: &mut OutputMessage,
    version: ClientVersion,
    pos: Position,
    stackpos: u8,
    creature_id: u32,
    direction: Direction,
)
    ensures
        final(output)@ == ({
            let o = w8(
                w32(w16(wthing(w8(old(output)@, 0x6B), pos, stackpos, creature_id), 0x63), creature_id),
                direction_number(direction),
            );
            if version == ClientVersion::V1098 {
                w8(o, 0)
            } else {
                o
            }
        }),
{
    if stackpos >= 10 {
        output.add_byte(0x6B);
        output.add_u16(0xFFFF);
        output.add_u32(creature_id);
    } else {
        output.add_byte(0x6B);
        output.add_position(pos.x, pos.y, pos.z);
        output.add_byte(stackpos);
    }
    output.add_u16(0x63);
    output.add_u32(creature_id);
    output.add_byte(direction.to_u8());
    if version.is_1098() {
        output.add_byte(0x00);
    }
}

/// A creature speaking: 0xAA, a statement id of 0, its name and level, the
/// speak class on the wire, the position and the text.
pub fn write_creature_say(
    output: &mut OutputMessage,
    version: ClientVersion,
    name: &str,
    level: u16,
    speak_type: u8,
    pos: Position,
    text: &[u8],
)
    ensures
        final(output)@ == wstr(
            wpos(
                w8(
                    w16(wstr(w32(w8(old(output)@, 0xAA), 0), name.spec_bytes()), level),
                    speak_wire(version, speak_type),
                ),
                pos,
            ),
            text@,
        ),
{
    output.add_byte(0xAA);
    output.add_u32(0x00);
    output.add_string(name.as_bytes());
    output.add_u16(level);
    output.add_byte(translate_speak_class_to_client(version, speak_type));
    output.add_position(pos.x, pos.y, pos.z);
    output.add_string(text);
}

/// Whether a creature may be walked through: 0x92, its id, 0 if passable
/// else 1.
pub fn write_creature_walkthrough(output: &mut OutputMessage, creature_id: u32, passable: bool)
    ensures
        final(output)@ == w8(
            w32(w8(old(output)@, 0x92), creature_id),
            if passable { 0u8 } else { 1u8 },
        ),
{
    output.add_byte(0x92);
    output.add_u32(creature_id);
    output.add_byte(if passable { 0x00 } else { 0x01 });
}

/// A creature's party shield: 0x91, its id, the shield.
pub fn write_creature_shield(output: &mut OutputMessage, creature_id: u32, party_shield: u8)
    ensures
        final(output)@ == w8(w32(w8(old(output)@, 0x91), creature_id), party_shield),
{
    output.add_byte(0x91);
    output.add_u32(creature_id);
    output.add_byte(party_shield);
}

/// A creature's skull: 0x90, its id, the skull number.
pub fn write_creature_skull(output: &mut OutputMessage, creature_id: u32, skull: u8)
    ensures
        final(output)@ == w8(w32(w8(old(output)@, 0x90), creature_id), skull),
{
    output.add_byte(0x90);
    output.add_u32(creature_id);
    output.add_byte(skull);
}

/// A creature's light: 0x8D, its id, level and color.
pub fn write_creature_light(output: &mut OutputMessage, creature_id: u32, level: u8, color: u8)
    ensures
        final(output)@ == w8(w8(w32(w8(old(output)@, 0x8D), creature_id), level), color),
{
    output.add_byte(0x8D);
    output.add_u32(creature_id);
    output.add_byte(level);
    output.add_byte(color);
}

/// A creature's speed: 0x8F, its id, then for 10.98 half the base speed and
/// half the speed, else the speed.
pub fn write_change_speed(
    output: &mut OutputMessage,
    version: ClientVersion,
    creature_id: u32,
    base_speed: u16,
    speed: u16,
)
    ensures
        final(output)@ == ({
            let o = w32(w8(old(output)@, 0x8F), creature_id);
            if version == ClientVersion::V1098 {
                w16(w16(o, (base_speed / 2) as u16), (speed / 2) as u16)
            } else {
                w16(o, speed)
            }
        }),
{
    output.add_byte(0x8F);
    output.add_u32(creature_id);
    if version.is_1098() {
        output.add_u16(base_speed / 2);
        output.add_u16(speed / 2);
    } else {
        output.add_u16(speed);
    }
}

/// The player's condition icons: 0xA2, the icon bits.
pub fn write_icons(output: &mut OutputMessage, icons: u16)
    ensures
        final(output)@ == w16(w8(old(output)@, 0xA2), icons),
{
    output.add_byte(0xA2);
    output.add_u16(icons);
}

/// The world light: 0x82, level, color.
pub fn write_world_light(output: &mut OutputMessage, level: u8, color: u8)
    ensures
        final(output)@ == w8(w8(w8(old(output)@, 0x82), level), color),
{
    output.add_byte(0x82);
    output.add_byte(level);
    output.add_byte(color);
}

/// A text message: 0xB4, the message class on the wire, the text.
pub fn write_text_message(output: &mut OutputMessage, version: ClientVersion, msg_type: u8, text: &[u8])
    ensures
        final(output)@ == wstr(w8(w8(old(output)@, 0xB4), message_wire(version, msg_type)), text@),
{
    output.add_byte(0xB4);
    output.add_byte(translate_message_class_to_client(version, msg_type));
    output.add_string(text);
}

/// An item leaving a container slot: 0x72, container id, slot.
pub fn write_remove_container_item(output: &mut OutputMessage, cid: u8, slot: u8)
    ensures
        final(output)@ == w8(w8(w8(old(output)@, 0x72), cid), slot),
{
    output.add_byte(0x72);
    output.add_byte(cid);
    output.add_byte(slot);
}

/// A container closing: 0x6F, container id.
pub fn write_close_container(output: &mut OutputMessage, cid: u8)
    ensures
        final(output)@ == w8(w8(old(output)@, 0x6F), cid),
{
    output.add_byte(0x6F);
    output.add_byte(cid);
}

/// A missile: 0x85, from, to, the effect.
pub fn write_distance_shoot(output: &mut OutputMessage, from: Position, to: Position, effect_type: u8)
    ensures
        final(output)@ == w8(wpos(wpos(w8(old(output)@, 0x85), from), to), effect_type),
{
    output.add_byte(0x85);
    output.add_position(from.x, from.y, from.z);
    output.add_position(to.x, to.y, to.z);
    output.add_byte(effect_type);
}

/// A magic effect: 0x83, the position, the effect.
pub fn write_magic_effect(output: &mut OutputMessage, pos: Position, effect_type: u8)
    ensures
        final(output)@ == w8(wpos(w8(old(output)@, 0x83), pos), effect_type),
{
    output.add_byte(0x83);
    output.add_position(pos.x, pos.y, pos.z);
    output.add_byte(effect_type);
}

/// Floating text: 0x84, the position, the color, the text.
pub fn write_animated_text(output: &mut OutputMessage, pos: Position, color: u8, text: &[u8])
    ensures
        final(output)@ == wstr(w8(wpos(w8(old(output)@, 0x84), pos), color), text@),
{
    output.add_byte(0x84);
    output.add_position(pos.x, pos.y, pos.z);
    output.add_byte(color);
    output.add_string(text);
}

/// Dropping the attack target: 0xA3 and a zero id.
pub fn write_cancel_target(output: &mut OutputMessage)
    ensures
        final(output)@ == w32(w8(old(output)@, 0xA3), 0),
{
    output.add_byte(0xA3);
    output.add_u32(0x00000000);
}

/// The fight modes: 0xA7, fight, chase and secure mode.
pub fn write_fight_modes(output: &mut OutputMessage, fight_mode: u8, chase_mode: u8, secure_mode: u8)
    ensures
        final(output)@ == w8(w8(w8(w8(old(output)@, 0xA7), fight_mode), chase_mode), secure_mode),
{
    output.add_byte(0xA7);
    output.add_byte(fight_mode);
    output.add_byte(chase_mode);
    output.add_byte(secure_mode);
}

/// A message box: 0x15, the text.
pub fn write_fyi_box(output: &mut OutputMessage, text: &[u8])
    ensures
        final(output)@ == wstr(w8(old(output)@, 0x15), text@),
{
    output.add_byte(0x15);
    output.add_string(text);
}

/// A refused step: 0xB5, the direction.
pub fn write_cancel_walk(output: &mut OutputMessage, direction: Direction)
    ensures
        final(output)@ == w8(w8(old(output)@, 0xB5), direction_number(direction)),
{
    output.add_byte(0xB5);
    output.add_byte(direction.to_u8());
}

/// The death window: 0x28.
pub fn write_relogin_window(output: &mut OutputMessage)
    ensures
        final(output)@ == w8(old(output)@, 0x28),
{
    output.add_byte(0x28);
}

/// A closed trade: 0x7F.
pub fn write_close_trade(output: &mut OutputMessage)
    ensures
        final(output)@ == w8(old(output)@, 0x7F),
{
    output.add_byte(0x7F);
}

/// A thing leaving a tile: 0x6C, the place and stack position; nothing for
/// a stack position of 10 or more.
pub fn write_remove_tile_thing(output: &mut OutputMessage, pos: Position, stackpos: u8)
    ensures
        final(output)@ == if stackpos >= 10 {
            old(output)@
        } else {
            w8(wpos(w8(old(output)@, 0x6C), pos), stackpos)
        },
{
    if stackpos >= 10 {
        return;
    }
    output.add_byte(0x6C);
    output.add_position(pos.x, pos.y, pos.z);
    output.add_byte(stackpos);
}

/// A creature leaving a tile: 0x6C and its place.
pub fn write_remove_tile_creature(output: &mut OutputMessage, pos: Position, stackpos: u8, creature_id: u32)
    ensures
        final(output)@ == wthing(w8(old(output)@, 0x6C), pos, stackpos, creature_id),
{
    output.add_byte(0x6C);
    if stackpos < 10 {
        output.add_position(pos.x, pos.y, pos.z);
        output.add_byte(stackpos);
    } else {
        output.add_u16(0xFFFF);
        output.add_u32(creature_id);
    }
}

/// The body of a creature move: where it was, then where it goes.
pub fn write_creature_movement(
    output: &mut OutputMessage,
    old_pos: Position,
    new_pos: Position,
    old_stackpos: u8,
    creature_id: u32,
)
    ensures
        final(output)@ == wpos(wthing(old(output)@, old_pos, old_stackpos, creature_id), new_pos),
{
    if old_stackpos < 10 {
        output.add_position(old_pos.x, old_pos.y, old_pos.z);
        output.add_byte(old_stackpos);
    } else {
        output.add_u16(0xFFFF);
        output.add_u32(creature_id);
    }
    output.add_position(new_pos.x, new_pos.y, new_pos.z);
}

/// A VIP entry: 0xD2, the character id and name, for 10.98 an empty
/// description, icon 0 and no notification, then whether it is online.
pub fn write_vip(output: &mut OutputMessage, version: ClientVersion, guid: u32, name: &str, online: bool)
    ensures
        final(output)@ == ({
            let o = wstr(w32(w8(old(output)@, 0xD2), guid), name.spec_bytes());
            let o2 = if version == ClientVersion::V1098 {
                w8(w32(wstr(o, Seq::empty()), 0), 0)
            } else {
                o
            };
            w8(o2, if online { 1u8 } else { 0u8 })
        }),
{
    output.add_byte(0xD2);
    output.add_u32(guid);
    output.add_string(name.as_bytes());
    if version.is_1098() {
        let empty: [u8; 0] = [];
        assert(empty@ =~= Seq::<u8>::empty());
        output.add_string(&empty);
        output.add_u32(0);
        output.add_byte(0x00);
    }
    output.add_byte(if online { 0x01 } else { 0x00 });
}

/// A VIP logging in (0xD3) or out (0xD4), with its character id.
pub fn write_updated_vip_status(output: &mut OutputMessage, guid: u32, online: bool)
    ensures
        final(output)@ == w32(w8(old(output)@, if online { 0xD3u8 } else { 0xD4u8 }), guid),
{
    output.add_byte(if online { 0xD3 } else { 0xD4 });
    output.add_u32(guid);
}

/// The quest entries from the first `n` on: id, name, whether completed.
pub open spec fn wquests(o: OutputView, quests: Seq<(u16, Seq<u8>, bool)>) -> OutputView
    decreases quests.len(),
{
    if quests.len() == 0 {
        o
    } else {
        let q = quests.last();
        w8(wstr(w16(wquests(o, quests.drop_last()), q.0), q.1), if q.2 { 1u8 } else { 0u8 })
    }
}

/// The view of a quest list entry.
pub open spec fn quest_entry_view(q: (u16, &str, bool)) -> (u16, Seq<u8>, bool) {
    (q.0, q.1.spec_bytes(), q.2)
}

/// The quest log: 0xF0, the number of quests (truncated to `u16`), then
/// each quest.
pub fn write_quest_log(output: &mut OutputMessage, quests: &[(u16, &str, bool)])
    ensures
        final(output)@ == wquests(
            w16(w8(old(output)@, 0xF0), (quests@.len() % 65536) as u16),
            quests@.map_values(|q: (u16, &str, bool)| quest_entry_view(q)),
        ),
{
    output.add_byte(0xF0);
    let n = quests.len();
    proof {
        assert(n as u16 == n % 65536) by (bit_vector);
    }
    output.add_u16(n as u16);
    let ghost start = output@;
    let ghost views = quests@.map_values(|q: (u16, &str, bool)| quest_entry_view(q));
    let mut i: usize = 0;
    while i < n
        invariant
            n == quests@.len(),
            i <= n,
            views == quests@.map_values(|q: (u16, &str, bool)| quest_entry_view(q)),
            output@ == wquests(start, views.take(i as int)),
        decreases n - i,
    {
        let (id, name, completed) = quests[i];
        output.add_u16(id);
        output.add_string(name.as_bytes());
        output.add_byte(if completed { 0x01 } else { 0x00 });
        proof {
            assert(views.take(i + 1).drop_last() =~= views.take(i as int));
            assert(views.take(i + 1).last() == quest_entry_view(quests@[i as int]));
        }
        i = i + 1;
    }
    proof {
        assert(views.take(n as int) =~= views);
    }
}

/// The mission entries: name and description.
pub open spec fn wmissions(o: OutputView, missions: Seq<(Seq<u8>, Seq<u8>)>) -> OutputView
    decreases missions.len(),
{
    if missions.len() == 0 {
        o
    } else {
        let m = missions.last();
        wstr(wstr(wmissions(o, missions.drop_last()), m.0), m.1)
    }
}

/// The view of a mission entry as the bytes of its name and description.
pub open spec fn mission_entry_view(m: (String, String)) -> (Seq<u8>, Seq<u8>) {
    (encode_utf8(m.0@), encode_utf8(m.1@))
}

/// A quest's missions: 0xF1, the quest id, the number of missions (at
/// most 255), then every mission's name and description.
pub fn write_quest_line(output: &mut OutputMessage, quest_id: u16, missions: &[(String, String)])
    ensures
        final(output)@ == wmissions(
            w8(
                w16(w8(old(output)@, 0xF1), quest_id),
                if missions@.len() < 255 { missions@.len() as u8 } else { 255u8 },
            ),
            missions@.map_values(|m: (String, String)| mission_entry_view(m)),
        ),
{
    output.add_byte(0xF1);
    output.add_u16(quest_id);
    let n = missions.len();
    let count: u8 = if n < 255 { n as u8 } else { 255 };
    output.add_byte(count);
    let ghost start = output@;
    let ghost views = missions@.map_values(|m: (String, String)| mission_entry_view(m));
    let mut i: usize = 0;
    while i < n
        invariant
            n == missions@.len(),
            i <= n,
            views == missions@.map_values(|m: (String, String)| mission_entry_view(m)),
            output@ == wmissions(start, views.take(i as int)),
        decreases n - i,
    {
        let m = &missions[i];
        output.add_string(m.0.as_str().as_bytes());
        output.add_string(m.1.as_str().as_bytes());
        proof {
            assert(views.take(i + 1).drop_last() =~= views.take(i as int));
            assert(views.take(i + 1).last() == mission_entry_view(missions@[i as int]));
        }
        i = i + 1;
    }
    proof {
        assert(views.take(n as int) =~= views);
    }
}

/// A tutorial hint: 0xDC, the tutorial id.
pub fn write_tutorial(output: &mut OutputMessage, tutorial_id: u8)
    ensures
        final(output)@ == w8(w8(old(output)@, 0xDC), tutorial_id),
{
    output.add_byte(0xDC);
    output.add_byte(tutorial_id);
}

/// A map mark: 0xDD, the position, the mark type, the description.
pub fn write_add_marker(output: &mut OutputMessage, pos: Position, mark_type: u8, description: &str)
    ensures
        final(output)@ == wstr(w8(wpos(w8(old(output)@, 0xDD), pos), mark_type), description.spec_bytes()),
{
    output.add_byte(0xDD);
    output.add_position(pos.x, pos.y, pos.z);
    output.add_byte(mark_type);
    output.add_string(description.as_bytes());
}

/// An opened channel: 0xAC, its id, its name.
pub fn write_channel(output: &mut OutputMessage, channel_id: u16, channel_name: &str)
    ensures
        final(output)@ == wstr(w16(w8(old(output)@, 0xAC), channel_id), channel_name.spec_bytes()),
{
    output.add_byte(0xAC);
    output.add_u16(channel_id);
    output.add_string(channel_name.as_bytes());
}

/// A channel message: 0xAA, a statement id of 0, the speaker's name and
/// level, the speak class as given, the channel id, the text.
pub fn write_channel_message(
    output: &mut OutputMessage,
    channel_id: u16,
    name: &str,
    level: u16,
    speak_type: u8,
    text: &[u8],
)
    ensures
        final(output)@ == wstr(
            w16(w8(w16(wstr(w32(w8(old(output)@, 0xAA), 0), name.spec_bytes()), level), speak_type), channel_id),
            text@,
        ),
{
    output.add_byte(0xAA);
    output.add_u32(0x00);
    output.add_string(name.as_bytes());
    output.add_u16(level);
    output.add_byte(speak_type);
    output.add_u16(channel_id);
    output.add_string(text);
}

/// A private channel with a player opened: 0xAD, the player's name.
pub fn write_open_private_channel(output: &mut OutputMessage, name: &str)
    ensures
        final(output)@ == wstr(w8(old(output)@, 0xAD), name.spec_bytes()),
{
    output.add_byte(0xAD);
    output.add_string(name.as_bytes());
}

/// An own private channel created: 0xB2, its id, its name.
pub fn write_create_private_channel(output: &mut OutputMessage, channel_id: u16, channel_name: &str)
    ensures
        final(output)@ == wstr(w16(w8(old(output)@, 0xB2), channel_id), channel_name.spec_bytes()),
{
    output.add_byte(0xB2);
    output.add_u16(channel_id);
    output.add_string(channel_name.as_bytes());
}

/// A private channel closed: 0xB3, its id.
pub fn write_close_private(output: &mut OutputMessage, channel_id: u16)
    ensures
        final(output)@ == w16(w8(old(output)@, 0xB3), channel_id),
{
    output.add_byte(0xB3);
    output.add_u16(channel_id);
}

/// A house's access list window: 0x97, 0, the window id, the list text.
pub fn write_house_window(output: &mut OutputMessage, window_text_id: u32, text: &[u8])
    ensures
        final(output)@ == wstr(w32(w8(w8(old(output)@, 0x97), 0), window_text_id), text@),
{
    output.add_byte(0x97);
    output.add_byte(0x00);
    output.add_u32(window_text_id);
    output.add_string(text);
}

/// A string field that is written as a bare zero length when empty.
pub open spec fn wstr_or_zero(o: OutputView, s: Seq<u8>) -> OutputView {
    if s.len() == 0 {
        w16(o, 0)
    } else {
        wstr(o, s)
    }
}

/// A readable or writable text window: 0x96, the window id, the item's
/// client id, the item count where the item has one, the length limit
/// (the text's own length, truncated, when it cannot be written), the
/// text, the writer's name, and the date written (empty for none).
pub open spec fn text_window(
    o: OutputView,
    window_text_id: u32,
    client_id: u16,
    item_count_byte: Option<u8>,
    text: Seq<u8>,
    writer: Seq<u8>,
    date: u32,
    can_write: bool,
    max_text_len: u16,
) -> OutputView {
    let o1 = w16(w32(w8(o, 0x96), window_text_id), client_id);
    let o2 = match item_count_byte {
        Some(c) => w8(o1, c),
        None => o1,
    };
    let o3 = w16(o2, if can_write { max_text_len } else { (text.len() % 65536) as u16 });
    let date_bytes = if date != 0 {
        encode_utf8(crate::util::date::date_text((date / 86400) as int))
    } else {
        Seq::empty()
    };
    wstr_or_zero(wstr_or_zero(wstr(o3, text), writer), date_bytes)
}

/// Writes a text window (see `text_window`).
pub fn write_text_window(
    output: &mut OutputMessage,
    window_text_id: u32,
    client_id: u16,
    item_count_byte: Option<u8>,
    text: &[u8],
    writer: &[u8],
    date: u32,
    can_write: bool,
    max_text_len: u16,
)
    ensures
        final(output)@ == text_window(
            old(output)@,
            window_text_id,
            client_id,
            item_count_byte,
            text@,
            writer@,
            date,
            can_write,
            max_text_len,
        ),
{
    output.add_byte(0x96);
    output.add_u32(window_text_id);
    output.add_u16(client_id);
    match item_count_byte {
        Some(count) => output.add_byte(count),
        None => {},
    }
    let n = text.len();
    proof {
        assert(n as u16 == n % 65536) by (bit_vector);
    }
    if can_write {
        output.add_u16(max_text_len);
    } else {
        output.add_u16(n as u16);
    }
    output.add_string(text);
    if writer.len() == 0 {
        output.add_u16(0);
    } else {
        output.add_string(writer);
    }
    if date != 0 {
        let date_text = crate::util::date::format_date_short(date);
        let bytes = date_text.as_str().as_bytes();
        if bytes.len() == 0 {
            output.add_u16(0);
        } else {
            output.add_string(bytes);
        }
    } else {
        output.add_u16(0);
        assert(Seq::<u8>::empty().len() == 0);
    }
}

/// A creature's looks: a look type with head, body, legs and feet colours
/// and addons, or an item look, and a mount.
#[derive(Debug, Clone, Copy, PartialEq, Eq, Structural, Default)]
pub struct CreatureOutfit {
    pub look_type: u16,
    pub look_type_ex: u16,
    pub look_head: u8,
    pub look_body: u8,
    pub look_legs: u8,
    pub look_feet: u8,
    pub look_addons: u8,
    pub look_mount: u16,
}

/// An outfit on the wire: the look type, then the colours and addons, or
/// for look type 0 the item look; for 10.98 the mount after.
pub open spec fn woutfit(o: OutputView, version: ClientVersion, f: CreatureOutfit) -> OutputView {
    let o1 = w16(o, f.look_type);
    let o2 = if f.look_type != 0 {
        w8(w8(w8(w8(w8(o1, f.look_head), f.look_body), f.look_legs), f.look_feet), f.look_addons)
    } else {
        w16(o1, f.look_type_ex)
    };
    if version == ClientVersion::V1098 {
        w16(o2, f.look_mount)
    } else {
        o2
    }
}

/// Writes an outfit (see `woutfit`).
pub fn write_outfit(output: &mut OutputMessage, version: ClientVersion, outfit: &CreatureOutfit)
    ensures
        final(output)@ == woutfit(old(output)@, version, *outfit),
{
    output.add_u16(outfit.look_type);
    if outfit.look_type != 0 {
        output.add_byte(outfit.look_head);
        output.add_byte(outfit.look_body);
        output.add_byte(outfit.look_legs);
        output.add_byte(outfit.look_feet);
        output.add_byte(outfit.look_addons);
    } else {
        output.add_u16(outfit.look_type_ex);
    }
    if version.is_1098() {
        output.add_u16(outfit.look_mount);
    }
}

/// A creature's new looks: 0x8E, its id, the outfit.
pub fn write_creature_outfit(output: &mut OutputMessage, version: ClientVersion, creature_id: u32, outfit: &CreatureOutfit)
    ensures
        final(output)@ == woutfit(w32(w8(old(output)@, 0x8E), creature_id), version, *outfit),
{
    output.add_byte(0x8E);
    output.add_u32(creature_id);
    write_outfit(output, version, outfit);
}

} // verus!


