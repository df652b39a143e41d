//! The binary form of an item's attributes, as stored with tiles and
//! player items: one tag byte per attribute, then its value, little-endian.
use vstd::prelude::*;
use vstd::utf8::{decode_utf8, encode_utf8, valid_utf8};
use crate::map::Position;
use crate::net::le::le_value;
use crate::map::tile::MapItem;
use crate::net::le::le_bytes;

verus! {

pub const ATTR_ACTION_ID: u8 = 4;
pub const ATTR_UNIQUE_ID: u8 = 5;
pub const ATTR_TEXT: u8 = 6;
pub const ATTR_DESC: u8 = 7;
pub const ATTR_TELE_DEST: u8 = 8;
pub const ATTR_DEPOT_ID: u8 = 10;
pub const ATTR_RUNE_CHARGES: u8 = 12;
pub const ATTR_HOUSEDOORID: u8 = 14;
pub const ATTR_COUNT: u8 = 15;
pub const ATTR_DURATION: u8 = 16;
pub const ATTR_DECAYING_STATE: u8 = 17;
pub const ATTR_WRITTENDATE: u8 = 18;
pub const ATTR_WRITTENBY: u8 = 19;
pub const ATTR_SLEEPERGUID: u8 = 20;
pub const ATTR_SLEEPSTART: u8 = 21;
pub const ATTR_CHARGES: u8 = 22;
pub const ATTR_CONTAINER_ITEMS: u8 = 23;
pub const ATTR_NAME: u8 = 24;
pub const ATTR_ARTICLE: u8 = 25;
pub const ATTR_PLURALNAME: u8 = 26;
pub const ATTR_WEIGHT: u8 = 27;
pub const ATTR_ATTACK: u8 = 28;
pub const ATTR_DEFENSE: u8 = 29;
pub const ATTR_EXTRADEFENSE: u8 = 30;
pub const ATTR_ARMOR: u8 = 31;
pub const ATTR_HITCHANCE: u8 = 32;
pub const ATTR_SHOOTRANGE: u8 = 33;
pub const ATTR_DECAYTO: u8 = 35;

/// `bytes` where `present`, else nothing.
pub open spec fn opt_bytes(present: bool, bytes: Seq<u8>) -> Seq<u8> {
    if present {
        bytes
    } else {
        Seq::empty()
    }
}

/// A text value: its UTF-8 length as two bytes (taken modulo 65536), then
/// its UTF-8 bytes.
#[verifier::opaque]
pub open spec fn text_bytes(s: Seq<char>) -> Seq<u8> {
    let b = encode_utf8(s);
    le_bytes((b.len() as u16) as nat, 2) + b
}

/// A tagged two-byte value.
#[verifier::opaque]
pub open spec fn tag16(tag: u8, v: u16) -> Seq<u8> {
    seq![tag] + le_bytes(v as nat, 2)
}

/// A tagged four-byte value.
#[verifier::opaque]
pub open spec fn tag32(tag: u8, v: u32) -> Seq<u8> {
    seq![tag] + le_bytes(v as nat, 4)
}

/// A tagged text value, present where the text is not empty.
#[verifier::opaque]
pub open spec fn tag_text(tag: u8, s: Seq<char>) -> Seq<u8> {
    opt_bytes(s.len() != 0, seq![tag] + text_bytes(s))
}

/// The count (at most 255) for an item type counted by amount, the
/// charges, the action id (only for a movable item type) and the unique id.
#[verifier::opaque]
pub open spec fn attr_bytes_ids(item: MapItem, count_type: bool, moveable: bool) -> Seq<u8> {
    let count: u8 = if item.count > 255 {
        255
    } else {
        item.count as u8
    };
    opt_bytes(count_type, seq![ATTR_COUNT, count]) + opt_bytes(
        item.charges != 0,
        tag16(ATTR_CHARGES, item.charges),
    ) + opt_bytes(moveable && item.action_id != 0, tag16(ATTR_ACTION_ID, item.action_id))
        + opt_bytes(item.unique_id != 0, tag16(ATTR_UNIQUE_ID, item.unique_id))
}

/// The text, the date written, the writer, the description, the duration
/// and the decaying state.
#[verifier::opaque]
pub open spec fn attr_bytes_writing(item: MapItem) -> Seq<u8> {
    tag_text(ATTR_TEXT, item.text@) + opt_bytes(
        item.written_date != 0,
        tag32(ATTR_WRITTENDATE, item.written_date),
    ) + tag_text(ATTR_WRITTENBY, item.written_by@) + tag_text(ATTR_DESC, item.description@)
        + opt_bytes(item.duration != 0, tag32(ATTR_DURATION, item.duration as u32)) + opt_bytes(
        item.decaying_state != 0,
        seq![ATTR_DECAYING_STATE, item.decaying_state],
    )
}

/// The name, article and plural name, and the weight.
#[verifier::opaque]
pub open spec fn attr_bytes_names(item: MapItem) -> Seq<u8> {
    tag_text(ATTR_NAME, item.name@) + tag_text(ATTR_ARTICLE, item.article@) + tag_text(
        ATTR_PLURALNAME,
        item.plural_name@,
    ) + opt_bytes(item.weight != 0, tag32(ATTR_WEIGHT, item.weight))
}

/// The attack, defense, extra defense and armor.
#[verifier::opaque]
pub open spec fn attr_bytes_combat(item: MapItem) -> Seq<u8> {
    opt_bytes(item.attack != 0, tag32(ATTR_ATTACK, item.attack as u32)) + opt_bytes(
        item.defense != 0,
        tag32(ATTR_DEFENSE, item.defense as u32),
    ) + opt_bytes(item.extra_defense != 0, tag32(ATTR_EXTRADEFENSE, item.extra_defense as u32))
        + opt_bytes(item.armor != 0, tag32(ATTR_ARMOR, item.armor as u32))
}

/// The hit chance, shoot range, decay target, depot id and rune charges.
#[verifier::opaque]
pub open spec fn attr_bytes_use(item: MapItem) -> Seq<u8> {
    opt_bytes(item.hit_chance != 0, seq![ATTR_HITCHANCE, item.hit_chance as u8]) + opt_bytes(
        item.shoot_range != 0,
        seq![ATTR_SHOOTRANGE, item.shoot_range],
    ) + opt_bytes(item.decay_to != 0, tag32(ATTR_DECAYTO, item.decay_to as u32)) + opt_bytes(
        item.depot_id != 0,
        tag16(ATTR_DEPOT_ID, item.depot_id),
    ) + opt_bytes(item.rune_charges != 0, seq![ATTR_RUNE_CHARGES, item.rune_charges])
}

/// A tagged position: x and y in two bytes each, then the floor.
#[verifier::opaque]
pub open spec fn tag_position(tag: u8, p: crate::map::Position) -> Seq<u8> {
    seq![tag] + le_bytes(p.x as nat, 2) + le_bytes(p.y as nat, 2) + seq![p.z]
}

/// The house door id, teleport destination, sleeper and sleep start.
#[verifier::opaque]
pub open spec fn attr_bytes_place(item: MapItem) -> Seq<u8> {
    opt_bytes(item.house_door_id != 0, seq![ATTR_HOUSEDOORID, item.house_door_id]) + match item.teleport_destination {
        Some(d) => tag_position(ATTR_TELE_DEST, d),
        None => Seq::empty(),
    } + opt_bytes(item.sleeper_guid != 0, tag32(ATTR_SLEEPERGUID, item.sleeper_guid)) + opt_bytes(
        item.sleep_start != 0,
        tag32(ATTR_SLEEPSTART, item.sleep_start),
    )
}

/// The attributes of `item` in their stored form, in their fixed order (see
/// the six parts); each attribute that is not set is left out.
pub open spec fn item_attr_bytes(item: MapItem, count_type: bool, moveable: bool) -> Seq<u8> {
    attr_bytes_ids(item, count_type, moveable) + attr_bytes_writing(item) + attr_bytes_names(item)
        + attr_bytes_combat(item) + attr_bytes_use(item) + attr_bytes_place(item)
}

/// Appends `v` as two little-endian bytes.
pub(crate) fn push_u16(out: &mut Vec<u8>, v: u16)
    ensures
        final(out)@ == old(out)@ + le_bytes(v as nat, 2),
{
    out.push((v % 256) as u8);
    out.push((v / 256) as u8);
    proof {
        reveal_with_fuel(le_bytes, 3);
        assert(out@ =~= old(out)@ + le_bytes(v as nat, 2));
    }
}

/// Appends `v` as four little-endian bytes.
pub(crate) fn push_u32(out: &mut Vec<u8>, v: u32)
    ensures
        final(out)@ == old(out)@ + le_bytes(v as nat, 4),
{
    out.push((v % 256) as u8);
    out.push(((v / 256) % 256) as u8);
    out.push(((v / 65536) % 256) as u8);
    out.push((v / 16777216) as u8);
    proof {
        reveal_with_fuel(le_bytes, 5);
        let n = v as nat;
        assert((n / 256) / 256 == n / 65536) by (nonlinear_arith);
        assert(((n / 256) / 256) / 256 == n / 16777216) by (nonlinear_arith);
        assert((n / 16777216) % 256 == n / 16777216);
        assert(out@ =~= old(out)@ + le_bytes(v as nat, 4));
    }
}

/// Appends a tagged text value where the text is not empty.
fn push_tag_text(out: &mut Vec<u8>, tag: u8, s: &String)
    ensures
        final(out)@ == old(out)@ + tag_text(tag, s@),
{
    let t = s.as_str();
    proof {
        reveal(tag_text);
        reveal(text_bytes);
    }
    if t.is_empty() {
        assert(old(out)@ + Seq::<u8>::empty() =~= old(out)@);
        return;
    }
    out.push(tag);
    let bytes = t.as_bytes();
    push_u16(out, bytes.len() as u16);
    let ghost before = out@;
    let mut i: usize = 0;
    while i < bytes.len()
        invariant
            i <= bytes@.len(),
            out@ == before + bytes@.take(i as int),
        decreases bytes@.len() - i,
    {
        out.push(bytes[i]);
        i = i + 1;
        assert(out@ =~= before + bytes@.take(i as int));
    }
    assert(bytes@.take(bytes@.len() as int) =~= bytes@);
    assert(out@ =~= old(out)@ + tag_text(tag, s@));
}

fn push_u8_tag(out: &mut Vec<u8>, tag: u8, v: u8)
    ensures
        final(out)@ == old(out)@ + seq![tag, v],
{
    out.push(tag);
    out.push(v);
    assert(out@ =~= old(out)@ + seq![tag, v]);
}

fn push_tag16(out: &mut Vec<u8>, tag: u8, v: u16)
    ensures
        final(out)@ == old(out)@ + tag16(tag, v),
{
    out.push(tag);
    push_u16(out, v);
    assert(out@ =~= old(out)@ + tag16(tag, v)) by {
        reveal(tag16);
    }
}

fn push_tag32(out: &mut Vec<u8>, tag: u8, v: u32)
    ensures
        final(out)@ == old(out)@ + tag32(tag, v),
{
    out.push(tag);
    push_u32(out, v);
    assert(out@ =~= old(out)@ + tag32(tag, v)) by {
        reveal(tag32);
    }
}

fn write_attrs_ids(item: &MapItem, count_type: bool, moveable: bool, out: &mut Vec<u8>)
    ensures
        final(out)@ == old(out)@ + attr_bytes_ids(*item, count_type, moveable),
{
    reveal(attr_bytes_ids);
    let ghost o = out@;
    if count_type {
        push_u8_tag(out, ATTR_COUNT, if item.count > 255 {
            255
        } else {
            item.count as u8
        });
    }
    let ghost o1 = out@;
    if item.charges != 0 {
        push_tag16(out, ATTR_CHARGES, item.charges);
    }
    let ghost o2 = out@;
    if moveable && item.action_id != 0 {
        push_tag16(out, ATTR_ACTION_ID, item.action_id);
    }
    let ghost o3 = out@;
    if item.unique_id != 0 {
        push_tag16(out, ATTR_UNIQUE_ID, item.unique_id);
    }
    assert(out@ =~= o + attr_bytes_ids(*item, count_type, moveable));
}

fn write_attrs_writing(item: &MapItem, out: &mut Vec<u8>)
    ensures
        final(out)@ == old(out)@ + attr_bytes_writing(*item),
{
    reveal(attr_bytes_writing);
    let ghost o = out@;
    push_tag_text(out, ATTR_TEXT, &item.text);
    if item.written_date != 0 {
        push_tag32(out, ATTR_WRITTENDATE, item.written_date);
    }
    push_tag_text(out, ATTR_WRITTENBY, &item.written_by);
    push_tag_text(out, ATTR_DESC, &item.description);
    if item.duration != 0 {
        push_tag32(out, ATTR_DURATION, item.duration as u32);
    }
    if item.decaying_state != 0 {
        push_u8_tag(out, ATTR_DECAYING_STATE, item.decaying_state);
    }
    assert(out@ =~= o + attr_bytes_writing(*item));
}

fn write_attrs_names(item: &MapItem, out: &mut Vec<u8>)
    ensures
        final(out)@ == old(out)@ + attr_bytes_names(*item),
{
    reveal(attr_bytes_names);
    let ghost o = out@;
    push_tag_text(out, ATTR_NAME, &item.name);
    push_tag_text(out, ATTR_ARTICLE, &item.article);
    push_tag_text(out, ATTR_PLURALNAME, &item.plural_name);
    if item.weight != 0 {
        push_tag32(out, ATTR_WEIGHT, item.weight);
    }
    assert(out@ =~= o + attr_bytes_names(*item));
}

fn write_attrs_combat(item: &MapItem, out: &mut Vec<u8>)
    ensures
        final(out)@ == old(out)@ + attr_bytes_combat(*item),
{
    reveal(attr_bytes_combat);
    let ghost o = out@;
    if item.attack != 0 {
        push_tag32(out, ATTR_ATTACK, item.attack as u32);
    }
    if item.defense != 0 {
        push_tag32(out, ATTR_DEFENSE, item.defense as u32);
    }
    if item.extra_defense != 0 {
        push_tag32(out, ATTR_EXTRADEFENSE, item.extra_defense as u32);
    }
    if item.armor != 0 {
        push_tag32(out, ATTR_ARMOR, item.armor as u32);
    }
    assert(out@ =~= o + attr_bytes_combat(*item));
}

fn write_attrs_use(item: &MapItem, out: &mut Vec<u8>)
    ensures
        final(out)@ == old(out)@ + attr_bytes_use(*item),
{
    reveal(attr_bytes_use);
    let ghost o = out@;
    if item.hit_chance != 0 {
        push_u8_tag(out, ATTR_HITCHANCE, item.hit_chance as u8);
    }
    if item.shoot_range != 0 {
        push_u8_tag(out, ATTR_SHOOTRANGE, item.shoot_range);
    }
    if item.decay_to != 0 {
        push_tag32(out, ATTR_DECAYTO, item.decay_to as u32);
    }
    if item.depot_id != 0 {
        push_tag16(out, ATTR_DEPOT_ID, item.depot_id);
    }
    if item.rune_charges != 0 {
        push_u8_tag(out, ATTR_RUNE_CHARGES, item.rune_charges);
    }
    assert(out@ =~= o + attr_bytes_use(*item));
}

fn write_attrs_place(item: &MapItem, out: &mut Vec<u8>)
    ensures
        final(out)@ == old(out)@ + attr_bytes_place(*item),
{
    reveal(attr_bytes_place);
    let ghost o = out@;
    if item.house_door_id != 0 {
        push_u8_tag(out, ATTR_HOUSEDOORID, item.house_door_id);
    }
    let ghost o1 = out@;
    match item.teleport_destination {
        Some(dest) => {
            out.push(ATTR_TELE_DEST);
            push_u16(out, dest.x);
            push_u16(out, dest.y);
            out.push(dest.z);
            assert(out@ =~= o1 + tag_position(ATTR_TELE_DEST, dest)) by {
                reveal(tag_position);
            }
        },
        None => {},
    }
    if item.sleeper_guid != 0 {
        push_tag32(out, ATTR_SLEEPERGUID, item.sleeper_guid);
    }
    if item.sleep_start != 0 {
        push_tag32(out, ATTR_SLEEPSTART, item.sleep_start);
    }
    assert(out@ =~= o + attr_bytes_place(*item));
}

/// Appends the stored form of the attributes of `item` (see
/// `item_attr_bytes`); `count_type` and `moveable` tell whether the item's
/// type is counted by amount (stackable, a fluid or a splash) and movable.
pub fn write_item_attrs(item: &MapItem, count_type: bool, moveable: bool, out: &mut Vec<u8>)
    ensures
        final(out)@ == old(out)@ + item_attr_bytes(*item, count_type, moveable),
{
    let ghost o = out@;
    write_attrs_ids(item, count_type, moveable, out);
    write_attrs_writing(item, out);
    write_attrs_names(item, out);
    write_attrs_combat(item, out);
    write_attrs_use(item, out);
    write_attrs_place(item, out);
    assert(out@ =~= o + item_attr_bytes(*item, count_type, moveable));
}
/// The attributes of an item that its stored form holds.
pub ghost struct AttrsView {
    pub count: u16,
    pub action_id: u16,
    pub unique_id: u16,
    pub text: Seq<char>,
    pub description: Seq<char>,
    pub teleport_destination: Option<Position>,
    pub depot_id: u16,
    pub rune_charges: u8,
    pub house_door_id: u8,
    pub charges: u16,
    pub duration: i32,
    pub decaying_state: u8,
    pub written_date: u32,
    pub written_by: Seq<char>,
    pub sleeper_guid: u32,
    pub sleep_start: u32,
    pub name: Seq<char>,
    pub article: Seq<char>,
    pub plural_name: Seq<char>,
    pub weight: u32,
    pub attack: i32,
    pub defense: i32,
    pub extra_defense: i32,
    pub armor: i32,
    pub hit_chance: i8,
    pub shoot_range: u8,
    pub decay_to: i32,
}

/// The stored attributes of `item`.
pub open spec fn attrs_of(item: MapItem) -> AttrsView {
    AttrsView {
        count: item.count,
        action_id: item.action_id,
        unique_id: item.unique_id,
        text: item.text@,
        description: item.description@,
        teleport_destination: item.teleport_destination,
        depot_id: item.depot_id,
        rune_charges: item.rune_charges,
        house_door_id: item.house_door_id,
        charges: item.charges,
        duration: item.duration,
        decaying_state: item.decaying_state,
        written_date: item.written_date,
        written_by: item.written_by@,
        sleeper_guid: item.sleeper_guid,
        sleep_start: item.sleep_start,
        name: item.name@,
        article: item.article@,
        plural_name: item.plural_name@,
        weight: item.weight,
        attack: item.attack,
        defense: item.defense,
        extra_defense: item.extra_defense,
        armor: item.armor,
        hit_chance: item.hit_chance,
        shoot_range: item.shoot_range,
        decay_to: item.decay_to,
    }
}

/// The text that `String::from_utf8_lossy` makes of `bytes`, a function of
/// the bytes alone.
pub uninterp spec fn lossy_text(bytes: Seq<u8>) -> Seq<char>;

/// The text of `bytes`, invalid UTF-8 replaced (`String::from_utf8_lossy`):
/// for valid UTF-8, the text the bytes encode.
#[verifier::external_body]
pub(crate) fn utf8_lossy(bytes: &[u8]) -> (s: String)
    ensures
        s@ == lossy_text(bytes@),
        valid_utf8(bytes@) ==> s@ == decode_utf8(bytes@),
{
    String::from_utf8_lossy(bytes).into_owned()
}

/// The byte at `p`, and the position after it.
pub open spec fn rd_u8_at(d: Seq<u8>, p: int) -> Option<(u8, int)> {
    if 0 <= p < d.len() {
        Some((d[p], p + 1))
    } else {
        None
    }
}

/// The little-endian two-byte number at `p`, and the position after it.
pub open spec fn rd_u16_at(d: Seq<u8>, p: int) -> Option<(u16, int)> {
    if 0 <= p && p + 2 <= d.len() {
        Some((le_value(d.subrange(p, p + 2)) as u16, p + 2))
    } else {
        None
    }
}

/// The little-endian four-byte number at `p`, and the position after it.
pub open spec fn rd_u32_at(d: Seq<u8>, p: int) -> Option<(u32, int)> {
    if 0 <= p && p + 4 <= d.len() {
        Some((le_value(d.subrange(p, p + 4)) as u32, p + 4))
    } else {
        None
    }
}

/// The text of `bytes`: the text they encode where they are valid UTF-8,
/// else `lossy_text`.
pub open spec fn text_of(bytes: Seq<u8>) -> Seq<char> {
    if valid_utf8(bytes) {
        decode_utf8(bytes)
    } else {
        lossy_text(bytes)
    }
}

/// The text at `p` (a two-byte length, then that many bytes, see
/// `text_of`), and the position after it.
pub open spec fn rd_text_at(d: Seq<u8>, p: int) -> Option<(Seq<char>, int)> {
    match rd_u16_at(d, p) {
        Some((n, q)) => if q + n <= d.len() {
            Some((text_of(d.subrange(q, q + n)), q + n))
        } else {
            None
        },
        None => None,
    }
}

/// The attributes after reading the value of attribute `tag` at `p` into
/// `a`, and the position after it; nothing for an unknown tag or too few
/// bytes.
#[verifier::opaque]
pub open spec fn apply_attr(a: AttrsView, tag: u8, d: Seq<u8>, p: int) -> Option<(AttrsView, int)> {
    if tag == ATTR_COUNT {
        match rd_u8_at(d, p) {
            Some((v, q)) => Some((AttrsView { count: v as u16, ..a }, q)),
            None => None,
        }
    } else if tag == ATTR_RUNE_CHARGES {
        match rd_u8_at(d, p) {
            Some((v, q)) => Some((AttrsView { rune_charges: v, ..a }, q)),
            None => None,
        }
    } else if tag == ATTR_ACTION_ID {
        match rd_u16_at(d, p) {
            Some((v, q)) => Some((AttrsView { action_id: v, ..a }, q)),
            None => None,
        }
    } else if tag == ATTR_UNIQUE_ID {
        match rd_u16_at(d, p) {
            Some((v, q)) => Some((AttrsView { unique_id: v, ..a }, q)),
            None => None,
        }
    } else if tag == ATTR_TEXT {
        match rd_text_at(d, p) {
            Some((v, q)) => Some((AttrsView { text: v, ..a }, q)),
            None => None,
        }
    } else if tag == ATTR_DESC {
        match rd_text_at(d, p) {
            Some((v, q)) => Some((AttrsView { description: v, ..a }, q)),
            None => None,
        }
    } else if tag == ATTR_TELE_DEST {
        match rd_u16_at(d, p) {
            Some((x, q1)) => match rd_u16_at(d, q1) {
                Some((y, q2)) => match rd_u8_at(d, q2) {
                    Some((z, q3)) => Some(
                        (AttrsView { teleport_destination: Some(Position { x, y, z }), ..a }, q3),
                    ),
                    None => None,
                },
                None => None,
            },
            None => None,
        }
    } else if tag == ATTR_DEPOT_ID {
        match rd_u16_at(d, p) {
            Some((v, q)) => Some((AttrsView { depot_id: v, ..a }, q)),
            None => None,
        }
    } else if tag == ATTR_HOUSEDOORID {
        match rd_u8_at(d, p) {
            Some((v, q)) => Some((AttrsView { house_door_id: v, ..a }, q)),
            None => None,
        }
    } else if tag == ATTR_DURATION {
        match rd_u32_at(d, p) {
            Some((v, q)) => Some((AttrsView { duration: v as i32, ..a }, q)),
            None => None,
        }
    } else if tag == ATTR_DECAYING_STATE {
        match rd_u8_at(d, p) {
            Some((v, q)) => Some((AttrsView { decaying_state: v, ..a }, q)),
            None => None,
        }
    } else if tag == ATTR_WRITTENDATE {
        match rd_u32_at(d, p) {
            Some((v, q)) => Some((AttrsView { written_date: v, ..a }, q)),
            None => None,
        }
    } else if tag == ATTR_WRITTENBY {
        match rd_text_at(d, p) {
            Some((v, q)) => Some((AttrsView { written_by: v, ..a }, q)),
            None => None,
        }
    } else if tag == ATTR_SLEEPERGUID {
        match rd_u32_at(d, p) {
            Some((v, q)) => Some((AttrsView { sleeper_guid: v, ..a }, q)),
            None => None,
        }
    } else if tag == ATTR_SLEEPSTART {
        match rd_u32_at(d, p) {
            Some((v, q)) => Some((AttrsView { sleep_start: v, ..a }, q)),
            None => None,
        }
    } else if tag == ATTR_CHARGES {
        match rd_u16_at(d, p) {
            Some((v, q)) => Some((AttrsView { charges: v, ..a }, q)),
            None => None,
        }
    } else if tag == ATTR_NAME {
        match rd_text_at(d, p) {
            Some((v, q)) => Some((AttrsView { name: v, ..a }, q)),
            None => None,
        }
    } else if tag == ATTR_ARTICLE {
        match rd_text_at(d, p) {
            Some((v, q)) => Some((AttrsView { article: v, ..a }, q)),
            None => None,
        }
    } else if tag == ATTR_PLURALNAME {
        match rd_text_at(d, p) {
            Some((v, q)) => Some((AttrsView { plural_name: v, ..a }, q)),
            None => None,
        }
    } else if tag == ATTR_WEIGHT {
        match rd_u32_at(d, p) {
            Some((v, q)) => Some((AttrsView { weight: v, ..a }, q)),
            None => None,
        }
    } else if tag == ATTR_ATTACK {
        match rd_u32_at(d, p) {
            Some((v, q)) => Some((AttrsView { attack: v as i32, ..a }, q)),
            None => None,
        }
    } else if tag == ATTR_DEFENSE {
        match rd_u32_at(d, p) {
            Some((v, q)) => Some((AttrsView { defense: v as i32, ..a }, q)),
            None => None,
        }
    } else if tag == ATTR_EXTRADEFENSE {
        match rd_u32_at(d, p) {
            Some((v, q)) => Some((AttrsView { extra_defense: v as i32, ..a }, q)),
            None => None,
        }
    } else if tag == ATTR_ARMOR {
        match rd_u32_at(d, p) {
            Some((v, q)) => Some((AttrsView { armor: v as i32, ..a }, q)),
            None => None,
        }
    } else if tag == ATTR_HITCHANCE {
        match rd_u8_at(d, p) {
            Some((v, q)) => Some((AttrsView { hit_chance: v as i8, ..a }, q)),
            None => None,
        }
    } else if tag == ATTR_SHOOTRANGE {
        match rd_u8_at(d, p) {
            Some((v, q)) => Some((AttrsView { shoot_range: v, ..a }, q)),
            None => None,
        }
    } else if tag == ATTR_DECAYTO {
        match rd_u32_at(d, p) {
            Some((v, q)) => Some((AttrsView { decay_to: v as i32, ..a }, q)),
            None => None,
        }
    } else {
        None
    }
}

/// The attributes after reading them from `p` on: tag after tag, each
/// followed by its value, until a zero tag (which is read) or the end of
/// the bytes; nothing where a tag is unknown or a value is cut short.
pub open spec fn read_attrs_from(a: AttrsView, d: Seq<u8>, p: int) -> Option<(AttrsView, int)>
    decreases d.len() - p,
{
    if p < 0 || p >= d.len() {
        Some((a, p))
    } else if d[p] == 0 {
        Some((a, p + 1))
    } else {
        match apply_attr(a, d[p], d, p + 1) {
            Some((a2, q)) => if p < q <= d.len() {
                read_attrs_from(a2, d, q)
            } else {
                None
            },
            None => None,
        }
    }
}

/// The fields of an item that its stored attributes do not hold.
pub open spec fn same_frame(a: MapItem, b: MapItem) -> bool {
    &&& a.server_id == b.server_id
    &&& a.fluid_type == b.fluid_type
    &&& a.loaded_from_map == b.loaded_from_map
    &&& a.owner_id == b.owner_id
    &&& a.children == b.children
    &&& a.custom_attributes == b.custom_attributes
}

pub(crate) fn rd_u8(data: &[u8], pos: &mut usize) -> (r: Option<u8>)
    ensures
        match rd_u8_at(data@, *old(pos) as int) {
            Some((v, q)) => r == Some(v) && *final(pos) == q,
            None => r is None && *final(pos) == *old(pos),
        },
{
    if *pos < data.len() {
        let v = data[*pos];
        *pos = *pos + 1;
        Some(v)
    } else {
        None
    }
}

pub(crate) fn rd_u16(data: &[u8], pos: &mut usize) -> (r: Option<u16>)
    ensures
        match rd_u16_at(data@, *old(pos) as int) {
            Some((v, q)) => r == Some(v) && *final(pos) == q,
            None => r is None && *final(pos) == *old(pos),
        },
{
    if data.len() >= 2 && *pos <= data.len() - 2 {
        let p = *pos;
        let v = data[p] as u16 + data[p + 1] as u16 * 256;
        proof {
            let sub = data@.subrange(p as int, p + 2);
            reveal_with_fuel(le_value, 3);
            assert(sub.drop_first().drop_first().len() == 0);
            assert(le_value(sub) == data@[p as int] + 256 * data@[p + 1]);
        }
        *pos = p + 2;
        Some(v)
    } else {
        None
    }
}

pub(crate) fn rd_u32(data: &[u8], pos: &mut usize) -> (r: Option<u32>)
    ensures
        match rd_u32_at(data@, *old(pos) as int) {
            Some((v, q)) => r == Some(v) && *final(pos) == q,
            None => r is None && *final(pos) == *old(pos),
        },
{
    if data.len() >= 4 && *pos <= data.len() - 4 {
        let p = *pos;
        let b0 = data[p] as u32;
        let b1 = data[p + 1] as u32;
        let b2 = data[p + 2] as u32;
        let b3 = data[p + 3] as u32;
        let v = b0 + b1 * 256 + b2 * 65536 + b3 * 16777216;
        proof {
            let sub = data@.subrange(p as int, p + 4);
            reveal_with_fuel(le_value, 5);
            assert(sub.drop_first().drop_first().drop_first().drop_first().len() == 0);
            assert(le_value(sub) == b0 + 256 * (b1 + 256 * (b2 + 256 * b3)));
            assert(b0 + 256 * (b1 + 256 * (b2 + 256 * b3)) == b0 + b1 * 256 + b2 * 65536 + b3
                * 16777216) by (nonlinear_arith);
        }
        *pos = p + 4;
        Some(v)
    } else {
        None
    }
}

pub(crate) fn rd_str(data: &[u8], pos: &mut usize) -> (r: Option<String>)
    ensures
        match rd_text_at(data@, *old(pos) as int) {
            Some((v, q)) => r matches Some(s) && s@ == v && *final(pos) == q,
            None => r is None,
        },
{
    let len = match rd_u16(data, pos) {
        Some(n) => n as usize,
        None => {
            return None;
        },
    };
    if len > data.len() - *pos {
        return None;
    }
    let start = *pos;
    let mut bytes: Vec<u8> = Vec::new();
    let mut i: usize = 0;
    while i < len
        invariant
            i <= len,
            start + len <= data@.len(),
            data@.len() == data.len(),
            bytes@ == data@.subrange(start as int, start + i),
        decreases len - i,
    {
        bytes.push(data[start + i]);
        i = i + 1;
        assert(bytes@ =~= data@.subrange(start as int, start + i));
    }
    let text = utf8_lossy(bytes.as_slice());
    *pos = start + len;
    Some(text)
}

/// Reads the value of attribute `attr` at `pos` into `item` (see
/// `apply_attr`); `None` for an unknown attribute or a value cut short.
pub fn apply_item_attr(item: &mut MapItem, attr: u8, data: &[u8], pos: &mut usize) -> (r: Option<()>)
    ensures
        match apply_attr(attrs_of(*old(item)), attr, data@, *old(pos) as int) {
            Some((a, q)) => r is Some && attrs_of(*final(item)) == a && *final(pos) == q && same_frame(
                *old(item),
                *final(item),
            ),
            None => r is None,
        },
        r is Some ==> *old(pos) < *final(pos) <= data@.len(),
{
    proof {
        reveal(apply_attr);
    }
    if attr == ATTR_COUNT {
        let v = rd_u8(data, pos)?;
        item.count = v as u16;
    } else if attr == ATTR_RUNE_CHARGES {
        item.rune_charges = rd_u8(data, pos)?;
    } else if attr == ATTR_ACTION_ID {
        item.action_id = rd_u16(data, pos)?;
    } else if attr == ATTR_UNIQUE_ID {
        item.unique_id = rd_u16(data, pos)?;
    } else if attr == ATTR_TEXT {
        item.text = rd_str(data, pos)?;
    } else if attr == ATTR_DESC {
        item.description = rd_str(data, pos)?;
    } else if attr == ATTR_TELE_DEST {
        let x = rd_u16(data, pos)?;
        let y = rd_u16(data, pos)?;
        let z = rd_u8(data, pos)?;
        item.teleport_destination = Some(Position { x, y, z });
    } else if attr == ATTR_DEPOT_ID {
        item.depot_id = rd_u16(data, pos)?;
    } else if attr == ATTR_HOUSEDOORID {
        item.house_door_id = rd_u8(data, pos)?;
    } else if attr == ATTR_DURATION {
        let v = rd_u32(data, pos)?;
        item.duration = v as i32;
    } else if attr == ATTR_DECAYING_STATE {
        item.decaying_state = rd_u8(data, pos)?;
    } else if attr == ATTR_WRITTENDATE {
        item.written_date = rd_u32(data, pos)?;
    } else if attr == ATTR_WRITTENBY {
        item.written_by = rd_str(data, pos)?;
    } else if attr == ATTR_SLEEPERGUID {
        item.sleeper_guid = rd_u32(data, pos)?;
    } else if attr == ATTR_SLEEPSTART {
        item.sleep_start = rd_u32(data, pos)?;
    } else if attr == ATTR_CHARGES {
        item.charges = rd_u16(data, pos)?;
    } else if attr == ATTR_NAME {
        item.name = rd_str(data, pos)?;
    } else if attr == ATTR_ARTICLE {
        item.article = rd_str(data, pos)?;
    } else if attr == ATTR_PLURALNAME {
        item.plural_name = rd_str(data, pos)?;
    } else if attr == ATTR_WEIGHT {
        item.weight = rd_u32(data, pos)?;
    } else if attr == ATTR_ATTACK {
        let v = rd_u32(data, pos)?;
        item.attack = v as i32;
    } else if attr == ATTR_DEFENSE {
        let v = rd_u32(data, pos)?;
        item.defense = v as i32;
    } else if attr == ATTR_EXTRADEFENSE {
        let v = rd_u32(data, pos)?;
        item.extra_defense = v as i32;
    } else if attr == ATTR_ARMOR {
        let v = rd_u32(data, pos)?;
        item.armor = v as i32;
    } else if attr == ATTR_HITCHANCE {
        let v = rd_u8(data, pos)?;
        item.hit_chance = v as i8;
    } else if attr == ATTR_SHOOTRANGE {
        item.shoot_range = rd_u8(data, pos)?;
    } else if attr == ATTR_DECAYTO {
        let v = rd_u32(data, pos)?;
        item.decay_to = v as i32;
    } else {
        return None;
    }
    Some(())
}

/// Reads attribute after attribute from `pos` into `item` until a zero tag
/// or the end of `data` (see `read_attrs_from`); `None` where a tag is
/// unknown or a value cut short.
pub fn read_item_attrs(item: &mut MapItem, data: &[u8], pos: &mut usize) -> (r: Option<()>)
    ensures
        match read_attrs_from(attrs_of(*old(item)), data@, *old(pos) as int) {
            Some((a, q)) => r is Some && attrs_of(*final(item)) == a && *final(pos) == q && same_frame(
                *old(item),
                *final(item),
            ),
            None => r is None,
        },
{
    while *pos < data.len()
        invariant
            read_attrs_from(attrs_of(*old(item)), data@, *old(pos) as int) == read_attrs_from(
                attrs_of(*item),
                data@,
                *pos as int,
            ),
            same_frame(*old(item), *item),
        decreases data@.len() - *pos,
    {
        let at = *pos;
        let attr = match rd_u8(data, pos) {
            Some(a) => a,
            None => {
                return None;
            },
        };
        if attr == 0 {
            return Some(());
        }
        let ghost before = *item;
        match apply_item_attr(item, attr, data, pos) {
            Some(()) => {},
            None => {
                return None;
            },
        }
        proof {
            assert(*pos > at);
        }
    }
    Some(())
}

/// A read result moved `n` bytes on.
pub open spec fn shifted<T>(r: Option<(T, int)>, n: int) -> Option<(T, int)> {
    match r {
        Some((v, q)) => Some((v, q + n)),
        None => None,
    }
}

proof fn lemma_rd_shift(x: Seq<u8>, y: Seq<u8>, p: int)
    requires
        0 <= p,
    ensures
        rd_u8_at(x + y, x.len() + p) == shifted(rd_u8_at(y, p), x.len() as int),
        rd_u16_at(x + y, x.len() + p) == shifted(rd_u16_at(y, p), x.len() as int),
        rd_u32_at(x + y, x.len() + p) == shifted(rd_u32_at(y, p), x.len() as int),
        rd_text_at(x + y, x.len() + p) == shifted(rd_text_at(y, p), x.len() as int),
{
    let d = x + y;
    let n = x.len() as int;
    if p + 2 <= y.len() {
        assert(d.subrange(n + p, n + p + 2) =~= y.subrange(p, p + 2));
        let len = le_value(y.subrange(p, p + 2)) as u16;
        if p + 2 + len <= y.len() {
            assert(d.subrange(n + p + 2, n + p + 2 + len) =~= y.subrange(p + 2, p + 2 + len));
        }
    }
    if p + 4 <= y.len() {
        assert(d.subrange(n + p, n + p + 4) =~= y.subrange(p, p + 4));
    }
}

pub(crate) proof fn lemma_apply_shift(a: AttrsView, t: u8, x: Seq<u8>, y: Seq<u8>, p: int)
    requires
        0 <= p,
    ensures
        apply_attr(a, t, x + y, x.len() + p) == shifted(apply_attr(a, t, y, p), x.len() as int),
{
    reveal(apply_attr);
    lemma_rd_shift(x, y, p);
    lemma_rd_shift(x, y, p + 2);
    lemma_rd_shift(x, y, p + 4);
}

/// Reading attributes from bytes behind others is reading them alone,
/// moved on.
proof fn lemma_read_shift(a: AttrsView, x: Seq<u8>, y: Seq<u8>, p: int)
    requires
        0 <= p,
    ensures
        read_attrs_from(a, x + y, x.len() + p) == shifted(read_attrs_from(a, y, p), x.len() as int),
    decreases y.len() - p,
{
    let d = x + y;
    let n = x.len() as int;
    if p < y.len() {
        assert(d[n + p] == y[p]);
        if y[p] != 0 {
            lemma_apply_shift(a, y[p], x, y, p + 1);
            match apply_attr(a, y[p], y, p + 1) {
                Some((a2, q)) => {
                    if p < q <= y.len() {
                        lemma_read_shift(a2, x, y, q);
                    }
                },
                None => {},
            }
        }
    }
}

proof fn lemma_rd_extend(x: Seq<u8>, y: Seq<u8>, p: int)
    ensures
        rd_u8_at(x, p) is Some ==> rd_u8_at(x + y, p) == rd_u8_at(x, p),
        rd_u16_at(x, p) is Some ==> rd_u16_at(x + y, p) == rd_u16_at(x, p),
        rd_u32_at(x, p) is Some ==> rd_u32_at(x + y, p) == rd_u32_at(x, p),
        rd_text_at(x, p) is Some ==> rd_text_at(x + y, p) == rd_text_at(x, p),
{
    let d = x + y;
    if 0 <= p && p + 2 <= x.len() {
        assert(d.subrange(p, p + 2) =~= x.subrange(p, p + 2));
        let n = le_value(x.subrange(p, p + 2)) as u16;
        if p + 2 + n <= x.len() {
            assert(d.subrange(p + 2, p + 2 + n) =~= x.subrange(p + 2, p + 2 + n));
        }
    }
    if 0 <= p && p + 4 <= x.len() {
        assert(d.subrange(p, p + 4) =~= x.subrange(p, p + 4));
    }
    if 0 <= p && p < x.len() {
        assert(d[p] == x[p]);
    }
}

/// Reading an attribute value that fits in `x` reads the same from `x`
/// followed by more bytes, ending inside `x`.
pub(crate) proof fn lemma_apply_extend(a: AttrsView, t: u8, x: Seq<u8>, y: Seq<u8>, p: int)
    ensures
        apply_attr(a, t, x, p) matches Some((a2, q)) ==> q <= x.len() && apply_attr(a, t, x + y, p)
            == Some((a2, q)),
{
    reveal(apply_attr);
    lemma_rd_extend(x, y, p);
    lemma_rd_extend(x, y, p + 2);
    lemma_rd_extend(x, y, p + 4);
}

/// No value is read for the container tag: it is no attribute.
pub(crate) proof fn lemma_container_tag_unread(a: AttrsView, d: Seq<u8>, p: int)
    ensures
        apply_attr(a, ATTR_CONTAINER_ITEMS, d, p) is None,
{
    reveal(apply_attr);
}

/// Reading a whole attribute from its own bytes and then the rest of the
/// bytes is reading the rest after it.
proof fn lemma_step(a: AttrsView, seg: Seq<u8>, tail: Seq<u8>, a2: AttrsView)
    requires
        seg.len() > 0,
        seg[0] != 0,
        apply_attr(a, seg[0], seg, 1) == Some((a2, seg.len() as int)),
    ensures
        read_attrs_from(a, seg + tail, 0) == shifted(read_attrs_from(a2, tail, 0), seg.len() as int),
{
    reveal(apply_attr);
    let d = seg + tail;
    assert(d[0] == seg[0]);
    lemma_rd_extend(seg, tail, 1);
    lemma_rd_extend(seg, tail, 3);
    lemma_rd_extend(seg, tail, 5);
    assert(apply_attr(a, seg[0], d, 1) == Some((a2, seg.len() as int)));
    lemma_read_shift(a2, seg, tail, 0);
}

proof fn lemma_seg8(t: u8, v: u8)
    ensures
        seq![t, v].len() == 2,
        seq![t, v][0] == t,
        rd_u8_at(seq![t, v], 1) == Some((v, 2int)),
{
}

proof fn lemma_seg16(t: u8, v: u16)
    ensures
        tag16(t, v).len() == 3,
        tag16(t, v)[0] == t,
        rd_u16_at(tag16(t, v), 1) == Some((v, 3int)),
{
    reveal(tag16);
    crate::net::le::lemma_byte_ranges();
    crate::net::le::lemma_le_roundtrip(v as nat, 2);
    assert(tag16(t, v).subrange(1, 3) =~= le_bytes(v as nat, 2));
}

proof fn lemma_seg32(t: u8, v: u32)
    ensures
        tag32(t, v).len() == 5,
        tag32(t, v)[0] == t,
        rd_u32_at(tag32(t, v), 1) == Some((v, 5int)),
{
    reveal(tag32);
    crate::net::le::lemma_byte_ranges();
    crate::net::le::lemma_le_roundtrip(v as nat, 4);
    assert(tag32(t, v).subrange(1, 5) =~= le_bytes(v as nat, 4));
}

proof fn lemma_seg_text(t: u8, s: Seq<char>)
    requires
        encode_utf8(s).len() < 65536,
        s.len() != 0,
    ensures
        tag_text(t, s).len() > 0,
        tag_text(t, s)[0] == t,
        rd_text_at(tag_text(t, s), 1) == Some((s, tag_text(t, s).len() as int)),
{
    reveal(tag_text);
    reveal(text_bytes);
    broadcast use vstd::utf8::encode_utf8_valid_utf8, vstd::utf8::encode_utf8_decode_utf8;

    let b = encode_utf8(s);
    let seg = seq![t] + text_bytes(s);
    crate::net::le::lemma_byte_ranges();
    crate::net::le::lemma_le_roundtrip(b.len() as nat, 2);
    assert(seg.subrange(1, 3) =~= le_bytes(b.len() as nat, 2));
    assert(seg.subrange(3, 3 + b.len() as int) =~= b);
}

proof fn lemma_seg_position(t: u8, d: Position)
    ensures
        tag_position(t, d).len() == 6,
        tag_position(t, d)[0] == t,
        rd_u16_at(tag_position(t, d), 1) == Some((d.x, 3int)),
        rd_u16_at(tag_position(t, d), 3) == Some((d.y, 5int)),
        rd_u8_at(tag_position(t, d), 5) == Some((d.z, 6int)),
{
    reveal(tag_position);
    crate::net::le::lemma_byte_ranges();
    crate::net::le::lemma_le_roundtrip(d.x as nat, 2);
    crate::net::le::lemma_le_roundtrip(d.y as nat, 2);
    let seg = tag_position(t, d);
    assert(seg.subrange(1, 3) =~= le_bytes(d.x as nat, 2));
    assert(seg.subrange(3, 5) =~= le_bytes(d.y as nat, 2));
}

/// `a` with the one-byte attribute `t` set from `v`.
pub open spec fn set_u8_attr(a: AttrsView, t: u8, v: u8) -> AttrsView {
    if t == ATTR_COUNT {
        AttrsView { count: v as u16, ..a }
    } else if t == ATTR_RUNE_CHARGES {
        AttrsView { rune_charges: v, ..a }
    } else if t == ATTR_HOUSEDOORID {
        AttrsView { house_door_id: v, ..a }
    } else if t == ATTR_DECAYING_STATE {
        AttrsView { decaying_state: v, ..a }
    } else if t == ATTR_HITCHANCE {
        AttrsView { hit_chance: v as i8, ..a }
    } else {
        AttrsView { shoot_range: v, ..a }
    }
}

/// `a` with the two-byte attribute `t` set from `v`.
pub open spec fn set_u16_attr(a: AttrsView, t: u8, v: u16) -> AttrsView {
    if t == ATTR_ACTION_ID {
        AttrsView { action_id: v, ..a }
    } else if t == ATTR_UNIQUE_ID {
        AttrsView { unique_id: v, ..a }
    } else if t == ATTR_DEPOT_ID {
        AttrsView { depot_id: v, ..a }
    } else {
        AttrsView { charges: v, ..a }
    }
}

/// `a` with the four-byte attribute `t` set from `v`.
pub open spec fn set_u32_attr(a: AttrsView, t: u8, v: u32) -> AttrsView {
    if t == ATTR_DURATION {
        AttrsView { duration: v as i32, ..a }
    } else if t == ATTR_WRITTENDATE {
        AttrsView { written_date: v, ..a }
    } else if t == ATTR_SLEEPERGUID {
        AttrsView { sleeper_guid: v, ..a }
    } else if t == ATTR_SLEEPSTART {
        AttrsView { sleep_start: v, ..a }
    } else if t == ATTR_WEIGHT {
        AttrsView { weight: v, ..a }
    } else if t == ATTR_ATTACK {
        AttrsView { attack: v as i32, ..a }
    } else if t == ATTR_DEFENSE {
        AttrsView { defense: v as i32, ..a }
    } else if t == ATTR_EXTRADEFENSE {
        AttrsView { extra_defense: v as i32, ..a }
    } else if t == ATTR_ARMOR {
        AttrsView { armor: v as i32, ..a }
    } else {
        AttrsView { decay_to: v as i32, ..a }
    }
}

/// `a` with the text attribute `t` set to `v`.
pub open spec fn set_text_attr(a: AttrsView, t: u8, v: Seq<char>) -> AttrsView {
    if t == ATTR_TEXT {
        AttrsView { text: v, ..a }
    } else if t == ATTR_DESC {
        AttrsView { description: v, ..a }
    } else if t == ATTR_WRITTENBY {
        AttrsView { written_by: v, ..a }
    } else if t == ATTR_NAME {
        AttrsView { name: v, ..a }
    } else if t == ATTR_ARTICLE {
        AttrsView { article: v, ..a }
    } else {
        AttrsView { plural_name: v, ..a }
    }
}

proof fn lemma_apply_u8(a: AttrsView, t: u8, v: u8)
    requires
        t == ATTR_COUNT || t == ATTR_RUNE_CHARGES || t == ATTR_HOUSEDOORID || t == ATTR_DECAYING_STATE
            || t == ATTR_HITCHANCE || t == ATTR_SHOOTRANGE,
    ensures
        apply_attr(a, t, seq![t, v], 1) == Some((set_u8_attr(a, t, v), 2int)),
{
    reveal(apply_attr);
    lemma_seg8(t, v);
}

proof fn lemma_apply_u16(a: AttrsView, t: u8, v: u16)
    requires
        t == ATTR_ACTION_ID || t == ATTR_UNIQUE_ID || t == ATTR_DEPOT_ID || t == ATTR_CHARGES,
    ensures
        apply_attr(a, t, tag16(t, v), 1) == Some((set_u16_attr(a, t, v), 3int)),
{
    reveal(apply_attr);
    lemma_seg16(t, v);
}

proof fn lemma_apply_u32(a: AttrsView, t: u8, v: u32)
    requires
        t == ATTR_DURATION || t == ATTR_WRITTENDATE || t == ATTR_SLEEPERGUID || t == ATTR_SLEEPSTART
            || t == ATTR_WEIGHT || t == ATTR_ATTACK || t == ATTR_DEFENSE || t == ATTR_EXTRADEFENSE
            || t == ATTR_ARMOR || t == ATTR_DECAYTO,
    ensures
        apply_attr(a, t, tag32(t, v), 1) == Some((set_u32_attr(a, t, v), 5int)),
{
    reveal(apply_attr);
    lemma_seg32(t, v);
}

proof fn lemma_apply_text(a: AttrsView, t: u8, v: Seq<char>)
    requires
        t == ATTR_TEXT || t == ATTR_DESC || t == ATTR_WRITTENBY || t == ATTR_NAME || t == ATTR_ARTICLE
            || t == ATTR_PLURALNAME,
        encode_utf8(v).len() < 65536,
        v.len() != 0,
    ensures
        apply_attr(a, t, tag_text(t, v), 1) == Some((set_text_attr(a, t, v), tag_text(t, v).len() as int)),
{
    reveal(apply_attr);
    lemma_seg_text(t, v);
}

proof fn lemma_apply_position(a: AttrsView, d: Position)
    ensures
        apply_attr(a, ATTR_TELE_DEST, tag_position(ATTR_TELE_DEST, d), 1) == Some(
            (AttrsView { teleport_destination: Some(d), ..a }, 6int),
        ),
{
    reveal(apply_attr);
    lemma_seg_position(ATTR_TELE_DEST, d);
}

/// Reading an attribute that may be missing from its bytes and then the
/// rest of the bytes.
proof fn lemma_opt_step(a: AttrsView, present: bool, seg: Seq<u8>, tail: Seq<u8>, a2: AttrsView)
    requires
        present ==> seg.len() > 0 && seg[0] != 0 && apply_attr(a, seg[0], seg, 1) == Some(
            (a2, seg.len() as int),
        ),
    ensures
        read_attrs_from(a, opt_bytes(present, seg) + tail, 0) == shifted(
            read_attrs_from(if present {
                a2
            } else {
                a
            }, tail, 0),
            opt_bytes(present, seg).len() as int,
        ),
{
    if present {
        lemma_step(a, seg, tail, a2);
    } else {
        assert(opt_bytes(present, seg) + tail =~= tail);
        match read_attrs_from(a, tail, 0) {
            Some((b, q)) => {},
            None => {},
        }
    }
}

proof fn lemma_shifted_twice<T>(r: Option<(T, int)>, m: int, n: int)
    ensures
        shifted(shifted(r, m), n) == shifted(r, m + n),
{
}

/// The text fields of `item` are short enough for their two-byte lengths.
pub open spec fn texts_fit(item: MapItem) -> bool {
    &&& encode_utf8(item.text@).len() < 65536
    &&& encode_utf8(item.description@).len() < 65536
    &&& encode_utf8(item.written_by@).len() < 65536
    &&& encode_utf8(item.name@).len() < 65536
    &&& encode_utf8(item.article@).len() < 65536
    &&& encode_utf8(item.plural_name@).len() < 65536
}

/// `a` overwritten by the count, charges, action id and unique id that
/// `item` stores.
pub open spec fn ids_over(a: AttrsView, item: MapItem, count_type: bool, moveable: bool) -> AttrsView {
    AttrsView {
        count: if count_type {
            if item.count > 255 {
                255
            } else {
                item.count
            }
        } else {
            a.count
        },
        charges: if item.charges != 0 {
            item.charges
        } else {
            a.charges
        },
        action_id: if moveable && item.action_id != 0 {
            item.action_id
        } else {
            a.action_id
        },
        unique_id: if item.unique_id != 0 {
            item.unique_id
        } else {
            a.unique_id
        },
        ..a
    }
}

/// `a` overwritten by the writing fields that `item` stores.
pub open spec fn writing_over(a: AttrsView, item: MapItem) -> AttrsView {
    AttrsView {
        text: if item.text@.len() != 0 {
            item.text@
        } else {
            a.text
        },
        written_date: if item.written_date != 0 {
            item.written_date
        } else {
            a.written_date
        },
        written_by: if item.written_by@.len() != 0 {
            item.written_by@
        } else {
            a.written_by
        },
        description: if item.description@.len() != 0 {
            item.description@
        } else {
            a.description
        },
        duration: if item.duration != 0 {
            item.duration
        } else {
            a.duration
        },
        decaying_state: if item.decaying_state != 0 {
            item.decaying_state
        } else {
            a.decaying_state
        },
        ..a
    }
}

proof fn lemma_i32_round(v: i32)
    ensures
        ((v as u32) as i32) == v,
{
    assert(((v as u32) as i32) == v) by (bit_vector);
}

proof fn lemma_read_ids(a: AttrsView, item: MapItem, ct: bool, mv: bool, tail: Seq<u8>)
    ensures
        read_attrs_from(a, attr_bytes_ids(item, ct, mv) + tail, 0) == shifted(
            read_attrs_from(ids_over(a, item, ct, mv), tail, 0),
            attr_bytes_ids(item, ct, mv).len() as int,
        ),
{
    reveal(attr_bytes_ids);
    let c8: u8 = if item.count > 255 {
        255
    } else {
        item.count as u8
    };
    let s1 = seq![ATTR_COUNT, c8];
    let s2 = tag16(ATTR_CHARGES, item.charges);
    let s3 = tag16(ATTR_ACTION_ID, item.action_id);
    let s4 = tag16(ATTR_UNIQUE_ID, item.unique_id);
    let p1 = ct;
    let p2 = item.charges != 0;
    let p3 = mv && item.action_id != 0;
    let p4 = item.unique_id != 0;
    let o1 = opt_bytes(p1, s1);
    let o2 = opt_bytes(p2, s2);
    let o3 = opt_bytes(p3, s3);
    let o4 = opt_bytes(p4, s4);
    let t3 = o4 + tail;
    let t2 = o3 + t3;
    let t1 = o2 + t2;
    let t0 = o1 + t1;
    assert(attr_bytes_ids(item, ct, mv) + tail =~= t0);
    let a1 = set_u8_attr(a, ATTR_COUNT, c8);
    let b1 = if p1 {
        a1
    } else {
        a
    };
    let a2 = set_u16_attr(b1, ATTR_CHARGES, item.charges);
    let b2 = if p2 {
        a2
    } else {
        b1
    };
    let a3 = set_u16_attr(b2, ATTR_ACTION_ID, item.action_id);
    let b3 = if p3 {
        a3
    } else {
        b2
    };
    let a4 = set_u16_attr(b3, ATTR_UNIQUE_ID, item.unique_id);
    let b4 = if p4 {
        a4
    } else {
        b3
    };
    lemma_apply_u8(a, ATTR_COUNT, c8);
    lemma_apply_u16(b1, ATTR_CHARGES, item.charges);
    lemma_apply_u16(b2, ATTR_ACTION_ID, item.action_id);
    lemma_apply_u16(b3, ATTR_UNIQUE_ID, item.unique_id);
    lemma_seg16(ATTR_CHARGES, item.charges);
    lemma_seg16(ATTR_ACTION_ID, item.action_id);
    lemma_seg16(ATTR_UNIQUE_ID, item.unique_id);
    lemma_opt_step(a, p1, s1, t1, a1);
    lemma_opt_step(b1, p2, s2, t2, a2);
    lemma_opt_step(b2, p3, s3, t3, a3);
    lemma_opt_step(b3, p4, s4, tail, a4);
    assert(b4 == ids_over(a, item, ct, mv));
    let r = read_attrs_from(b4, tail, 0);
    lemma_shifted_twice(r, o4.len() as int, o3.len() as int);
    lemma_shifted_twice(r, (o4.len() + o3.len()) as int, o2.len() as int);
    lemma_shifted_twice(r, (o4.len() + o3.len() + o2.len()) as int, o1.len() as int);
}

proof fn lemma_text_step(a: AttrsView, t: u8, text: Seq<char>, tail: Seq<u8>, a2: AttrsView)
    requires
        t != 0,
        encode_utf8(text).len() < 65536,
        text.len() != 0 ==> apply_attr(a, t, tag_text(t, text), 1) == Some(
            (a2, tag_text(t, text).len() as int),
        ),
    ensures
        read_attrs_from(a, tag_text(t, text) + tail, 0) == shifted(
            read_attrs_from(if text.len() != 0 {
                a2
            } else {
                a
            }, tail, 0),
            tag_text(t, text).len() as int,
        ),
{
    if text.len() != 0 {
        lemma_seg_text(t, text);
        lemma_step(a, tag_text(t, text), tail, a2);
    } else {
        reveal(tag_text);
        assert(tag_text(t, text) + tail =~= tail);
        match read_attrs_from(a, tail, 0) {
            Some((b, q)) => {},
            None => {},
        }
    }
}

#[verifier::spinoff_prover]
#[verifier::rlimit(60)]
proof fn lemma_read_writing(a: AttrsView, item: MapItem, tail: Seq<u8>)
    requires
        texts_fit(item),
    ensures
        read_attrs_from(a, attr_bytes_writing(item) + tail, 0) == shifted(
            read_attrs_from(writing_over(a, item), tail, 0),
            attr_bytes_writing(item).len() as int,
        ),
{
    reveal(attr_bytes_writing);
    let o1 = tag_text(ATTR_TEXT, item.text@);
    let o2 = opt_bytes(item.written_date != 0, tag32(ATTR_WRITTENDATE, item.written_date));
    let o3 = tag_text(ATTR_WRITTENBY, item.written_by@);
    let o4 = tag_text(ATTR_DESC, item.description@);
    let o5 = opt_bytes(item.duration != 0, tag32(ATTR_DURATION, item.duration as u32));
    let s6 = seq![ATTR_DECAYING_STATE, item.decaying_state];
    let o6 = opt_bytes(item.decaying_state != 0, s6);
    let t5 = o6 + tail;
    let t4 = o5 + t5;
    let t3 = o4 + t4;
    let t2 = o3 + t3;
    let t1 = o2 + t2;
    let t0 = o1 + t1;
    assert(attr_bytes_writing(item) + tail =~= t0);
    lemma_seg32(ATTR_WRITTENDATE, item.written_date);
    lemma_seg32(ATTR_DURATION, item.duration as u32);
    lemma_i32_round(item.duration);
    let b0 = a;
    let a1 = set_text_attr(b0, ATTR_TEXT, item.text@);
    let b1 = if item.text@.len() != 0 {
        a1
    } else {
        b0
    };
    let a2 = set_u32_attr(b1, ATTR_WRITTENDATE, item.written_date);
    let b2 = if item.written_date != 0 {
        a2
    } else {
        b1
    };
    let a3 = set_text_attr(b2, ATTR_WRITTENBY, item.written_by@);
    let b3 = if item.written_by@.len() != 0 {
        a3
    } else {
        b2
    };
    let a4 = set_text_attr(b3, ATTR_DESC, item.description@);
    let b4 = if item.description@.len() != 0 {
        a4
    } else {
        b3
    };
    let a5 = set_u32_attr(b4, ATTR_DURATION, item.duration as u32);
    let b5 = if item.duration != 0 {
        a5
    } else {
        b4
    };
    let a6 = set_u8_attr(b5, ATTR_DECAYING_STATE, item.decaying_state);
    let b6 = if item.decaying_state != 0 {
        a6
    } else {
        b5
    };
    if item.text@.len() != 0 {
        lemma_apply_text(b0, ATTR_TEXT, item.text@);
    }
    lemma_apply_u32(b1, ATTR_WRITTENDATE, item.written_date);
    if item.written_by@.len() != 0 {
        lemma_apply_text(b2, ATTR_WRITTENBY, item.written_by@);
    }
    if item.description@.len() != 0 {
        lemma_apply_text(b3, ATTR_DESC, item.description@);
    }
    lemma_apply_u32(b4, ATTR_DURATION, item.duration as u32);
    lemma_apply_u8(b5, ATTR_DECAYING_STATE, item.decaying_state);
    lemma_text_step(b0, ATTR_TEXT, item.text@, t1, a1);
    lemma_opt_step(b1, item.written_date != 0, tag32(ATTR_WRITTENDATE, item.written_date), t2, a2);
    lemma_text_step(b2, ATTR_WRITTENBY, item.written_by@, t3, a3);
    lemma_text_step(b3, ATTR_DESC, item.description@, t4, a4);
    lemma_opt_step(b4, item.duration != 0, tag32(ATTR_DURATION, item.duration as u32), t5, a5);
    lemma_opt_step(b5, item.decaying_state != 0, s6, tail, a6);
    assert(b6 == writing_over(a, item));
    let r = read_attrs_from(b6, tail, 0);
    lemma_shifted_twice(r, o6.len() as int, o5.len() as int);
    lemma_shifted_twice(r, (o6.len() + o5.len()) as int, o4.len() as int);
    lemma_shifted_twice(r, (o6.len() + o5.len() + o4.len()) as int, o3.len() as int);
    lemma_shifted_twice(r, (o6.len() + o5.len() + o4.len() + o3.len()) as int, o2.len() as int);
    lemma_shifted_twice(
        r,
        (o6.len() + o5.len() + o4.len() + o3.len() + o2.len()) as int,
        o1.len() as int,
    );
}

/// `a` overwritten by the names and weight that `item` stores.
pub open spec fn names_over(a: AttrsView, item: MapItem) -> AttrsView {
    AttrsView {
        name: if item.name@.len() != 0 {
            item.name@
        } else {
            a.name
        },
        article: if item.article@.len() != 0 {
            item.article@
        } else {
            a.article
        },
        plural_name: if item.plural_name@.len() != 0 {
            item.plural_name@
        } else {
            a.plural_name
        },
        weight: if item.weight != 0 {
            item.weight
        } else {
            a.weight
        },
        ..a
    }
}

/// `a` overwritten by the attack, defense, extra defense and armor that
/// `item` stores.
pub open spec fn combat_over(a: AttrsView, item: MapItem) -> AttrsView {
    AttrsView {
        attack: if item.attack != 0 {
            item.attack
        } else {
            a.attack
        },
        defense: if item.defense != 0 {
            item.defense
        } else {
            a.defense
        },
        extra_defense: if item.extra_defense != 0 {
            item.extra_defense
        } else {
            a.extra_defense
        },
        armor: if item.armor != 0 {
            item.armor
        } else {
            a.armor
        },
        ..a
    }
}

/// `a` overwritten by the hit chance, shoot range, decay target, depot id
/// and rune charges that `item` stores.
pub open spec fn use_over(a: AttrsView, item: MapItem) -> AttrsView {
    AttrsView {
        hit_chance: if item.hit_chance != 0 {
            item.hit_chance
        } else {
            a.hit_chance
        },
        shoot_range: if item.shoot_range != 0 {
            item.shoot_range
        } else {
            a.shoot_range
        },
        decay_to: if item.decay_to != 0 {
            item.decay_to
        } else {
            a.decay_to
        },
        depot_id: if item.depot_id != 0 {
            item.depot_id
        } else {
            a.depot_id
        },
        rune_charges: if item.rune_charges != 0 {
            item.rune_charges
        } else {
            a.rune_charges
        },
        ..a
    }
}

/// `a` overwritten by the house door id, teleport destination, sleeper and
/// sleep start that `item` stores.
pub open spec fn place_over(a: AttrsView, item: MapItem) -> AttrsView {
    AttrsView {
        house_door_id: if item.house_door_id != 0 {
            item.house_door_id
        } else {
            a.house_door_id
        },
        teleport_destination: match item.teleport_destination {
            Some(d) => Some(d),
            None => a.teleport_destination,
        },
        sleeper_guid: if item.sleeper_guid != 0 {
            item.sleeper_guid
        } else {
            a.sleeper_guid
        },
        sleep_start: if item.sleep_start != 0 {
            item.sleep_start
        } else {
            a.sleep_start
        },
        ..a
    }
}

/// `a` overwritten by every attribute that `item` stores (see
/// `item_attr_bytes`): the count at most 255 where the type is counted by
/// amount, the action id where the type is movable, and each other
/// attribute that is set.
pub open spec fn stored_over(a: AttrsView, item: MapItem, count_type: bool, moveable: bool) -> AttrsView {
    place_over(
        use_over(combat_over(names_over(writing_over(ids_over(a, item, count_type, moveable), item), item), item), item),
        item,
    )
}

proof fn lemma_i8_round(v: i8)
    ensures
        ((v as u8) as i8) == v,
{
    assert(((v as u8) as i8) == v) by (bit_vector);
}

#[verifier::spinoff_prover]
proof fn lemma_read_names(a: AttrsView, item: MapItem, tail: Seq<u8>)
    requires
        texts_fit(item),
    ensures
        read_attrs_from(a, attr_bytes_names(item) + tail, 0) == shifted(
            read_attrs_from(names_over(a, item), tail, 0),
            attr_bytes_names(item).len() as int,
        ),
{
    reveal(attr_bytes_names);
    let o1 = tag_text(ATTR_NAME, item.name@);
    let o2 = tag_text(ATTR_ARTICLE, item.article@);
    let o3 = tag_text(ATTR_PLURALNAME, item.plural_name@);
    let o4 = opt_bytes(item.weight != 0, tag32(ATTR_WEIGHT, item.weight));
    let t3 = o4 + tail;
    let t2 = o3 + t3;
    let t1 = o2 + t2;
    let t0 = o1 + t1;
    assert(attr_bytes_names(item) + tail =~= t0);
    lemma_seg32(ATTR_WEIGHT, item.weight);
    let b0 = a;
    let a1 = set_text_attr(b0, ATTR_NAME, item.name@);
    let b1 = if item.name@.len() != 0 {
        a1
    } else {
        b0
    };
    let a2 = set_text_attr(b1, ATTR_ARTICLE, item.article@);
    let b2 = if item.article@.len() != 0 {
        a2
    } else {
        b1
    };
    let a3 = set_text_attr(b2, ATTR_PLURALNAME, item.plural_name@);
    let b3 = if item.plural_name@.len() != 0 {
        a3
    } else {
        b2
    };
    let a4 = set_u32_attr(b3, ATTR_WEIGHT, item.weight);
    let b4 = if item.weight != 0 {
        a4
    } else {
        b3
    };
    if item.name@.len() != 0 {
        lemma_apply_text(b0, ATTR_NAME, item.name@);
    }
    if item.article@.len() != 0 {
        lemma_apply_text(b1, ATTR_ARTICLE, item.article@);
    }
    if item.plural_name@.len() != 0 {
        lemma_apply_text(b2, ATTR_PLURALNAME, item.plural_name@);
    }
    lemma_apply_u32(b3, ATTR_WEIGHT, item.weight);
    lemma_text_step(b0, ATTR_NAME, item.name@, t1, a1);
    lemma_text_step(b1, ATTR_ARTICLE, item.article@, t2, a2);
    lemma_text_step(b2, ATTR_PLURALNAME, item.plural_name@, t3, a3);
    lemma_opt_step(b3, item.weight != 0, tag32(ATTR_WEIGHT, item.weight), tail, a4);
    assert(b4 == names_over(a, item));
    let r = read_attrs_from(b4, tail, 0);
    lemma_shifted_twice(r, o4.len() as int, o3.len() as int);
    lemma_shifted_twice(r, (o4.len() + o3.len()) as int, o2.len() as int);
    lemma_shifted_twice(r, (o4.len() + o3.len() + o2.len()) as int, o1.len() as int);
}

#[verifier::spinoff_prover]
proof fn lemma_read_combat(a: AttrsView, item: MapItem, tail: Seq<u8>)
    ensures
        read_attrs_from(a, attr_bytes_combat(item) + tail, 0) == shifted(
            read_attrs_from(combat_over(a, item), tail, 0),
            attr_bytes_combat(item).len() as int,
        ),
{
    reveal(attr_bytes_combat);
    let s1 = tag32(ATTR_ATTACK, item.attack as u32);
    let s2 = tag32(ATTR_DEFENSE, item.defense as u32);
    let s3 = tag32(ATTR_EXTRADEFENSE, item.extra_defense as u32);
    let s4 = tag32(ATTR_ARMOR, item.armor as u32);
    let o1 = opt_bytes(item.attack != 0, s1);
    let o2 = opt_bytes(item.defense != 0, s2);
    let o3 = opt_bytes(item.extra_defense != 0, s3);
    let o4 = opt_bytes(item.armor != 0, s4);
    let t3 = o4 + tail;
    let t2 = o3 + t3;
    let t1 = o2 + t2;
    let t0 = o1 + t1;
    assert(attr_bytes_combat(item) + tail =~= t0);
    lemma_seg32(ATTR_ATTACK, item.attack as u32);
    lemma_seg32(ATTR_DEFENSE, item.defense as u32);
    lemma_seg32(ATTR_EXTRADEFENSE, item.extra_defense as u32);
    lemma_seg32(ATTR_ARMOR, item.armor as u32);
    lemma_i32_round(item.attack);
    lemma_i32_round(item.defense);
    lemma_i32_round(item.extra_defense);
    lemma_i32_round(item.armor);
    let b0 = a;
    let a1 = set_u32_attr(b0, ATTR_ATTACK, item.attack as u32);
    let b1 = if item.attack != 0 {
        a1
    } else {
        b0
    };
    let a2 = set_u32_attr(b1, ATTR_DEFENSE, item.defense as u32);
    let b2 = if item.defense != 0 {
        a2
    } else {
        b1
    };
    let a3 = set_u32_attr(b2, ATTR_EXTRADEFENSE, item.extra_defense as u32);
    let b3 = if item.extra_defense != 0 {
        a3
    } else {
        b2
    };
    let a4 = set_u32_attr(b3, ATTR_ARMOR, item.armor as u32);
    let b4 = if item.armor != 0 {
        a4
    } else {
        b3
    };
    lemma_apply_u32(b0, ATTR_ATTACK, item.attack as u32);
    lemma_apply_u32(b1, ATTR_DEFENSE, item.defense as u32);
    lemma_apply_u32(b2, ATTR_EXTRADEFENSE, item.extra_defense as u32);
    lemma_apply_u32(b3, ATTR_ARMOR, item.armor as u32);
    lemma_opt_step(b0, item.attack != 0, s1, t1, a1);
    lemma_opt_step(b1, item.defense != 0, s2, t2, a2);
    lemma_opt_step(b2, item.extra_defense != 0, s3, t3, a3);
    lemma_opt_step(b3, item.armor != 0, s4, tail, a4);
    assert(b4 == combat_over(a, item));
    let r = read_attrs_from(b4, tail, 0);
    lemma_shifted_twice(r, o4.len() as int, o3.len() as int);
    lemma_shifted_twice(r, (o4.len() + o3.len()) as int, o2.len() as int);
    lemma_shifted_twice(r, (o4.len() + o3.len() + o2.len()) as int, o1.len() as int);
}

#[verifier::spinoff_prover]
#[verifier::rlimit(50)]
proof fn lemma_read_use(a: AttrsView, item: MapItem, tail: Seq<u8>)
    ensures
        read_attrs_from(a, attr_bytes_use(item) + tail, 0) == shifted(
            read_attrs_from(use_over(a, item), tail, 0),
            attr_bytes_use(item).len() as int,
        ),
{
    reveal(attr_bytes_use);
    let s1 = seq![ATTR_HITCHANCE, item.hit_chance as u8];
    let s2 = seq![ATTR_SHOOTRANGE, item.shoot_range];
    let s3 = tag32(ATTR_DECAYTO, item.decay_to as u32);
    let s4 = tag16(ATTR_DEPOT_ID, item.depot_id);
    let s5 = seq![ATTR_RUNE_CHARGES, item.rune_charges];
    let o1 = opt_bytes(item.hit_chance != 0, s1);
    let o2 = opt_bytes(item.shoot_range != 0, s2);
    let o3 = opt_bytes(item.decay_to != 0, s3);
    let o4 = opt_bytes(item.depot_id != 0, s4);
    let o5 = opt_bytes(item.rune_charges != 0, s5);
    let t4 = o5 + tail;
    let t3 = o4 + t4;
    let t2 = o3 + t3;
    let t1 = o2 + t2;
    let t0 = o1 + t1;
    assert(attr_bytes_use(item) + tail =~= t0);
    lemma_seg8(ATTR_HITCHANCE, item.hit_chance as u8);
    lemma_seg8(ATTR_SHOOTRANGE, item.shoot_range);
    lemma_seg32(ATTR_DECAYTO, item.decay_to as u32);
    lemma_seg16(ATTR_DEPOT_ID, item.depot_id);
    lemma_seg8(ATTR_RUNE_CHARGES, item.rune_charges);
    lemma_i8_round(item.hit_chance);
    lemma_i32_round(item.decay_to);
    let b0 = a;
    let a1 = set_u8_attr(b0, ATTR_HITCHANCE, item.hit_chance as u8);
    let b1 = if item.hit_chance != 0 {
        a1
    } else {
        b0
    };
    let a2 = set_u8_attr(b1, ATTR_SHOOTRANGE, item.shoot_range);
    let b2 = if item.shoot_range != 0 {
        a2
    } else {
        b1
    };
    let a3 = set_u32_attr(b2, ATTR_DECAYTO, item.decay_to as u32);
    let b3 = if item.decay_to != 0 {
        a3
    } else {
        b2
    };
    let a4 = set_u16_attr(b3, ATTR_DEPOT_ID, item.depot_id);
    let b4 = if item.depot_id != 0 {
        a4
    } else {
        b3
    };
    let a5 = set_u8_attr(b4, ATTR_RUNE_CHARGES, item.rune_charges);
    let b5 = if item.rune_charges != 0 {
        a5
    } else {
        b4
    };
    lemma_apply_u8(b0, ATTR_HITCHANCE, item.hit_chance as u8);
    lemma_apply_u8(b1, ATTR_SHOOTRANGE, item.shoot_range);
    lemma_apply_u32(b2, ATTR_DECAYTO, item.decay_to as u32);
    lemma_apply_u16(b3, ATTR_DEPOT_ID, item.depot_id);
    lemma_apply_u8(b4, ATTR_RUNE_CHARGES, item.rune_charges);
    lemma_opt_step(b0, item.hit_chance != 0, s1, t1, a1);
    lemma_opt_step(b1, item.shoot_range != 0, s2, t2, a2);
    lemma_opt_step(b2, item.decay_to != 0, s3, t3, a3);
    lemma_opt_step(b3, item.depot_id != 0, s4, t4, a4);
    lemma_opt_step(b4, item.rune_charges != 0, s5, tail, a5);
    assert(b5 == use_over(a, item));
    let r = read_attrs_from(b5, tail, 0);
    lemma_shifted_twice(r, o5.len() as int, o4.len() as int);
    lemma_shifted_twice(r, (o5.len() + o4.len()) as int, o3.len() as int);
    lemma_shifted_twice(r, (o5.len() + o4.len() + o3.len()) as int, o2.len() as int);
    lemma_shifted_twice(r, (o5.len() + o4.len() + o3.len() + o2.len()) as int, o1.len() as int);
}

#[verifier::spinoff_prover]
proof fn lemma_read_place(a: AttrsView, item: MapItem, tail: Seq<u8>)
    ensures
        read_attrs_from(a, attr_bytes_place(item) + tail, 0) == shifted(
            read_attrs_from(place_over(a, item), tail, 0),
            attr_bytes_place(item).len() as int,
        ),
{
    reveal(attr_bytes_place);
    let s1 = seq![ATTR_HOUSEDOORID, item.house_door_id];
    let o1 = opt_bytes(item.house_door_id != 0, s1);
    let o2 = match item.teleport_destination {
        Some(d) => tag_position(ATTR_TELE_DEST, d),
        None => Seq::empty(),
    };
    let s3 = tag32(ATTR_SLEEPERGUID, item.sleeper_guid);
    let s4 = tag32(ATTR_SLEEPSTART, item.sleep_start);
    let o3 = opt_bytes(item.sleeper_guid != 0, s3);
    let o4 = opt_bytes(item.sleep_start != 0, s4);
    let t3 = o4 + tail;
    let t2 = o3 + t3;
    let t1 = o2 + t2;
    let t0 = o1 + t1;
    assert(attr_bytes_place(item) + tail =~= t0);
    lemma_seg8(ATTR_HOUSEDOORID, item.house_door_id);
    lemma_seg32(ATTR_SLEEPERGUID, item.sleeper_guid);
    lemma_seg32(ATTR_SLEEPSTART, item.sleep_start);
    let b0 = a;
    let a1 = set_u8_attr(b0, ATTR_HOUSEDOORID, item.house_door_id);
    let b1 = if item.house_door_id != 0 {
        a1
    } else {
        b0
    };
    let b2 = match item.teleport_destination {
        Some(d) => AttrsView { teleport_destination: Some(d), ..b1 },
        None => b1,
    };
    let a3 = set_u32_attr(b2, ATTR_SLEEPERGUID, item.sleeper_guid);
    let b3 = if item.sleeper_guid != 0 {
        a3
    } else {
        b2
    };
    let a4 = set_u32_attr(b3, ATTR_SLEEPSTART, item.sleep_start);
    let b4 = if item.sleep_start != 0 {
        a4
    } else {
        b3
    };
    lemma_apply_u8(b0, ATTR_HOUSEDOORID, item.house_door_id);
    lemma_apply_u32(b2, ATTR_SLEEPERGUID, item.sleeper_guid);
    lemma_apply_u32(b3, ATTR_SLEEPSTART, item.sleep_start);
    lemma_opt_step(b0, item.house_door_id != 0, s1, t1, a1);
    match item.teleport_destination {
        Some(d) => {
            lemma_seg_position(ATTR_TELE_DEST, d);
            lemma_apply_position(b1, d);
            lemma_step(b1, o2, t2, b2);
        },
        None => {
            assert(o2 + t2 =~= t2);
        },
    }
    lemma_opt_step(b2, item.sleeper_guid != 0, s3, t3, a3);
    lemma_opt_step(b3, item.sleep_start != 0, s4, tail, a4);
    assert(b4 == place_over(a, item));
    let r = read_attrs_from(b4, tail, 0);
    lemma_shifted_twice(r, o4.len() as int, o3.len() as int);
    lemma_shifted_twice(r, (o4.len() + o3.len()) as int, o2.len() as int);
    lemma_shifted_twice(r, (o4.len() + o3.len() + o2.len()) as int, o1.len() as int);
}

/// What is read back of the stored attributes of `item`, followed by any
/// other bytes, is every attribute the item stores (see `stored_over`),
/// read over the attributes read before, and then what the other bytes
/// hold; the text fields must fit their two-byte lengths.
pub proof fn law_attrs_read_back(base: AttrsView, item: MapItem, count_type: bool, moveable: bool, tail: Seq<u8>)
    requires
        texts_fit(item),
    ensures
        read_attrs_from(base, item_attr_bytes(item, count_type, moveable) + tail, 0) == shifted(
            read_attrs_from(stored_over(base, item, count_type, moveable), tail, 0),
            item_attr_bytes(item, count_type, moveable).len() as int,
        ),
{
    let g1 = attr_bytes_ids(item, count_type, moveable);
    let g2 = attr_bytes_writing(item);
    let g3 = attr_bytes_names(item);
    let g4 = attr_bytes_combat(item);
    let g5 = attr_bytes_use(item);
    let g6 = attr_bytes_place(item);
    let t5 = g6 + tail;
    let t4 = g5 + t5;
    let t3 = g4 + t4;
    let t2 = g3 + t3;
    let t1 = g2 + t2;
    let t0 = g1 + t1;
    assert(item_attr_bytes(item, count_type, moveable) + tail =~= t0);
    let a1 = ids_over(base, item, count_type, moveable);
    let a2 = writing_over(a1, item);
    let a3 = names_over(a2, item);
    let a4 = combat_over(a3, item);
    let a5 = use_over(a4, item);
    let a6 = place_over(a5, item);
    lemma_read_ids(base, item, count_type, moveable, t1);
    lemma_read_writing(a1, item, t2);
    lemma_read_names(a2, item, t3);
    lemma_read_combat(a3, item, t4);
    lemma_read_use(a4, item, t5);
    lemma_read_place(a5, item, tail);
    let r = read_attrs_from(a6, tail, 0);
    lemma_shifted_twice(r, g6.len() as int, g5.len() as int);
    lemma_shifted_twice(r, (g6.len() + g5.len()) as int, g4.len() as int);
    lemma_shifted_twice(r, (g6.len() + g5.len() + g4.len()) as int, g3.len() as int);
    lemma_shifted_twice(r, (g6.len() + g5.len() + g4.len() + g3.len()) as int, g2.len() as int);
    lemma_shifted_twice(
        r,
        (g6.len() + g5.len() + g4.len() + g3.len() + g2.len()) as int,
        g1.len() as int,
    );
}

} // verus!
