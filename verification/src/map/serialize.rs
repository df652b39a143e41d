//! How the movable items of house tiles are stored: for a tile its position
//! and the number of its items, then each item as its id, its attribute
//! bytes, the items it holds and a closing zero byte.
use vstd::prelude::*;
use crate::net::le::{
    le_bytes, le_value, byte_range, lemma_le_value_bound, lemma_byte_ranges, lemma_le_roundtrip,
};
use crate::map::item_attrs::{
    ATTR_CONTAINER_ITEMS, AttrsView, apply_attr, apply_item_attr, attrs_of, lemma_apply_extend,
    lemma_apply_shift, lemma_container_tag_unread, push_u16, push_u32, rd_u16, rd_u16_at, rd_u32,
    rd_u32_at, rd_u8, read_attrs_from, item_attr_bytes, write_item_attrs, law_attrs_read_back,
    stored_over, texts_fit,
};
use crate::map::tile::{CustomAttributeValue, MapItem};
use std::collections::HashMap;

verus! {

/// The database side of house storage: owners, rents, access lists and
/// stored items, which the server loads and saves.
pub struct IOMapSerialize;

/// An item as it is stored: its id, its attribute bytes, and the items it
/// holds where it is a container.
#[derive(Debug)]
pub struct SavedItem {
    pub id: u16,
    pub attrs: Vec<u8>,
    pub container_items: Option<Vec<SavedItem>>,
}

/// The stored form of `item`: its id (two bytes), its attribute bytes,
/// for a container the container tag, the number of held items (four
/// bytes) and the held items from last to first, then a zero byte.
pub open spec fn saved_bytes(item: SavedItem) -> Seq<u8>
    decreases item,
{
    le_bytes(item.id as nat, 2) + item.attrs@ + match item.container_items {
        Some(v) => seq![ATTR_CONTAINER_ITEMS] + le_bytes((v@.len() as u32) as nat, 4)
            + saved_rev(v@),
        None => Seq::empty(),
    } + seq![0u8]
}

/// The stored forms of `s` from its last item to its first.
pub open spec fn saved_rev(s: Seq<SavedItem>) -> Seq<u8>
    decreases s,
{
    if s.len() == 0 {
        Seq::empty()
    } else {
        saved_bytes(s[s.len() - 1]) + saved_rev(s.subrange(0, s.len() - 1))
    }
}

/// The stored forms of `s` from its first item to its last.
pub open spec fn saved_seq(s: Seq<SavedItem>) -> Seq<u8>
    decreases s.len(),
{
    if s.len() == 0 {
        Seq::empty()
    } else {
        saved_seq(s.subrange(0, s.len() - 1)) + saved_bytes(s[s.len() - 1])
    }
}

/// The stored form of an item given by its parts (see `saved_bytes`).
pub open spec fn item_record(id: u16, attrs: Seq<u8>, children: Option<Seq<SavedItem>>) -> Seq<u8> {
    le_bytes(id as nat, 2) + attrs + match children {
        Some(s) => seq![ATTR_CONTAINER_ITEMS] + le_bytes((s.len() as u32) as nat, 4) + saved_rev(s),
        None => Seq::empty(),
    } + seq![0u8]
}

/// The stored form of a tile's items: nothing for no items, else the
/// position (two, two and one bytes), the number of items (four bytes) and
/// each item in order.
pub open spec fn tile_record(items: Seq<SavedItem>, x: u16, y: u16, z: u8) -> Seq<u8> {
    if items.len() == 0 {
        Seq::empty()
    } else {
        le_bytes(x as nat, 2) + le_bytes(y as nat, 2) + seq![z] + le_bytes(
            (items.len() as u32) as nat,
            4,
        ) + saved_seq(items)
    }
}

fn push_bytes(out: &mut Vec<u8>, bytes: &[u8])
    ensures
        final(out)@ == old(out)@ + bytes@,
{
    let ghost before = out@;
    let mut i: usize = 0;
    while i < bytes.len()
        invariant
            i <= bytes@.len(),
            out@ == before + bytes@.take(i as int),
        decreases bytes@.len() - i,
    {
        out.push(bytes[i]);
        i = i + 1;
        assert(out@ =~= before + bytes@.take(i as int));
    }
    assert(bytes@.take(bytes@.len() as int) =~= bytes@);
}

/// Writes the held items of a container from last to first.
fn save_children_rev(items: &[SavedItem], out: &mut Vec<u8>)
    ensures
        final(out)@ == old(out)@ + saved_rev(items@),
    decreases items@, 1nat,
{
    let ghost before = out@;
    let mut i: usize = items.len();
    assert(items@.subrange(0, i as int) =~= items@);
    assert(out@ + saved_rev(items@) =~= before + saved_rev(items@));
    while i > 0
        invariant
            i <= items@.len(),
            out@ + saved_rev(items@.subrange(0, i as int)) == before + saved_rev(items@),
        decreases i,
    {
        let ghost s = items@.subrange(0, i as int);
        assert(s.subrange(0, s.len() - 1) =~= items@.subrange(0, i - 1));
        assert(s[s.len() - 1] == items@[i - 1]);
        assert(decreases_to!(items@ => items@[i - 1]));
        save_saved(&items[i - 1], out);
        i = i - 1;
        assert(out@ + saved_rev(items@.subrange(0, i as int)) =~= before + saved_rev(items@));
    }
    assert(items@.subrange(0, 0) =~= Seq::<SavedItem>::empty());
    assert(out@ =~= before + saved_rev(items@));
}

/// Writes the stored form of `item`.
fn save_saved(item: &SavedItem, out: &mut Vec<u8>)
    ensures
        final(out)@ == old(out)@ + saved_bytes(*item),
    decreases *item, 0nat,
{
    let ghost before = out@;
    push_u16(out, item.id);
    push_bytes(out, item.attrs.as_slice());
    let ghost mid = out@;
    match &item.container_items {
        Some(v) => {
            out.push(ATTR_CONTAINER_ITEMS);
            push_u32(out, v.len() as u32);
            let children = v.as_slice();
            assert(decreases_to!(*item => v@));
            save_children_rev(children, out);
        },
        None => {},
    }
    out.push(0u8);
    assert(out@ =~= before + saved_bytes(*item));
}

/// Writes the stored form of an item with id `item_id`, attribute bytes
/// `item_attrs` and, for a container, the held items `container_items`.
pub fn save_item(
    item_id: u16,
    item_attrs: &[u8],
    container_items: Option<&[SavedItem]>,
    out: &mut Vec<u8>,
)
    ensures
        final(out)@ == old(out)@ + item_record(
            item_id,
            item_attrs@,
            match container_items {
                Some(s) => Some(s@),
                None => None,
            },
        ),
{
    let ghost before = out@;
    push_u16(out, item_id);
    push_bytes(out, item_attrs);
    match container_items {
        Some(items) => {
            out.push(ATTR_CONTAINER_ITEMS);
            push_u32(out, items.len() as u32);
            save_children_rev(items, out);
        },
        None => {},
    }
    out.push(0u8);
    assert(out@ =~= before + item_record(
        item_id,
        item_attrs@,
        match container_items {
            Some(s) => Some(s@),
            None => None,
        },
    ));
}

/// Writes the stored form of a tile's items (see `tile_record`); nothing
/// where the tile has none.
pub fn save_tile(tile_items: &[SavedItem], tile_x: u16, tile_y: u16, tile_z: u8, out: &mut Vec<u8>)
    ensures
        final(out)@ == old(out)@ + tile_record(tile_items@, tile_x, tile_y, tile_z),
{
    if tile_items.len() == 0 {
        assert(old(out)@ + tile_record(tile_items@, tile_x, tile_y, tile_z) =~= old(out)@);
        return;
    }
    let ghost before = out@;
    push_u16(out, tile_x);
    push_u16(out, tile_y);
    out.push(tile_z);
    push_u32(out, tile_items.len() as u32);
    let ghost head = out@;
    let mut i: usize = 0;
    while i < tile_items.len()
        invariant
            i <= tile_items@.len(),
            out@ == head + saved_seq(tile_items@.subrange(0, i as int)),
        decreases tile_items@.len() - i,
    {
        let ghost s = tile_items@.subrange(0, i + 1);
        assert(s.subrange(0, s.len() - 1) =~= tile_items@.subrange(0, i as int));
        save_saved(&tile_items[i], out);
        i = i + 1;
    }
    assert(tile_items@.subrange(0, i as int) =~= tile_items@);
    assert(out@ =~= before + tile_record(tile_items@, tile_x, tile_y, tile_z));
}

/// The length of a text value at `p`: its two length bytes and the text.
pub open spec fn str_len_at(d: Seq<u8>, p: int) -> Option<nat> {
    match rd_u16_at(d, p) {
        Some((n, _)) => Some(2 + n as nat),
        None => None,
    }
}

/// The position after the custom attribute entry at `p`: a key (two
/// length bytes and the key), a value type byte, then the value: a text
/// (two length bytes and the text) for type 1, four bytes for types 2 and
/// 3, one byte for type 4; nothing for another type or too few bytes.
pub open spec fn custom_entry_end(d: Seq<u8>, p: int) -> Option<int> {
    match rd_u16_at(d, p) {
        None => None,
        Some((klen, q)) => {
            let t = q + klen;
            if t >= d.len() {
                None
            } else {
                let vt = d[t];
                let v = t + 1;
                let size: Option<int> = if vt == 1 {
                    match rd_u16_at(d, v) {
                        Some((n, _)) => Some(2 + n),
                        None => None,
                    }
                } else if vt == 2 || vt == 3 {
                    Some(4)
                } else if vt == 4 {
                    Some(1)
                } else {
                    None
                };
                match size {
                    Some(sz) => if v + sz > d.len() {
                        None
                    } else {
                        Some(v + sz)
                    },
                    None => None,
                }
            }
        },
    }
}

/// The position after `k` custom attribute entries from `p` on.
pub open spec fn custom_end(d: Seq<u8>, p: int, k: nat) -> Option<int>
    decreases k,
{
    if k == 0 {
        Some(p)
    } else {
        match custom_entry_end(d, p) {
            Some(q) => custom_end(d, q, (k - 1) as nat),
            None => None,
        }
    }
}

/// The length of a custom attribute block at `p`: an eight-byte entry
/// count, then that many entries.
pub open spec fn custom_len_at(d: Seq<u8>, p: int) -> Option<nat> {
    if p < 0 || p + 8 > d.len() {
        None
    } else {
        match custom_end(d, p + 8, le_value(d.subrange(p, p + 8))) {
            Some(e) => Some((e - p) as nat),
            None => None,
        }
    }
}

/// The length of the value of attribute `t` at `p`; nothing for an
/// attribute that is not known or a length that cannot be read.
pub open spec fn payload_len_at(t: u8, d: Seq<u8>, p: int) -> Option<nat> {
    if t == 3 || t == 16 || t == 18 || t == 20 || t == 21 || t == 27 || t == 38 {
        Some(4)
    } else if t == 4 || t == 5 || t == 9 || t == 10 || t == 12 || t == 22 || t == 28 || t == 29
        || t == 30 || t == 31 || t == 35 {
        Some(2)
    } else if t == 14 || t == 15 || t == 17 || t == 32 || t == 33 {
        Some(1)
    } else if t == 8 {
        Some(5)
    } else if t == 6 || t == 7 || t == 19 || t == 24 || t == 25 || t == 26 {
        str_len_at(d, p)
    } else if t == 34 {
        custom_len_at(d, p)
    } else {
        None
    }
}

/// The attribute bytes from `p` on, each tag with its value, up to the end
/// of the bytes or a zero or container tag (which is read and not kept),
/// and the position after them; nothing where a tag is not known or a
/// value is cut short.
pub open spec fn attrs_scan(d: Seq<u8>, p: int) -> Option<(Seq<u8>, int)>
    decreases d.len() - p,
{
    if p < 0 || p >= d.len() {
        Some((Seq::empty(), p))
    } else if d[p] == 0 || d[p] == ATTR_CONTAINER_ITEMS {
        Some((Seq::empty(), p + 1))
    } else {
        match payload_len_at(d[p], d, p + 1) {
            None => None,
            Some(n) => if p + 1 + n > d.len() {
                None
            } else {
                match attrs_scan(d, p + 1 + n) {
                    Some((rest, e)) => Some((seq![d[p]] + d.subrange(p + 1, p + 1 + n) + rest, e)),
                    None => None,
                }
            },
        }
    }
}

/// An item id and its attribute bytes at `p` (see `attrs_scan`), and the
/// position after them.
pub open spec fn item_scan(d: Seq<u8>, p: int) -> Option<(u16, Seq<u8>, int)> {
    match rd_u16_at(d, p) {
        Some((id, q)) => match attrs_scan(d, q) {
            Some((a, e)) => Some((id, a, e)),
            None => None,
        },
        None => None,
    }
}

/// Items from `p` on (see `item_scan`), each followed by one more byte,
/// until that byte is zero, and the position after it; nothing where an
/// item cannot be read or the bytes end before a zero byte.
pub open spec fn container_scan(d: Seq<u8>, p: int) -> Option<(Seq<(u16, Seq<u8>)>, int)>
    decreases d.len() - p,
{
    match item_scan(d, p) {
        None => None,
        Some((id, a, q)) => if q < p || q >= d.len() {
            None
        } else if d[q] == 0 {
            Some((seq![(id, a)], q + 1))
        } else {
            match container_scan(d, q + 1) {
                Some((rest, e)) => Some((seq![(id, a)] + rest, e)),
                None => None,
            }
        },
    }
}

/// The number in the `k` little-endian bytes at `p`.
fn le_number(data: &[u8], p: usize, k: usize) -> (v: u64)
    requires
        p + k <= data@.len(),
        k <= 8,
    ensures
        v as nat == le_value(data@.subrange(p as int, p + k)),
{
    let mut v: u64 = 0;
    let mut i: usize = k;
    proof {
        assert(data@.subrange(p + k, p + k).len() == 0);
    }
    while i > 0
        invariant
            i <= k <= 8,
            p + k <= data@.len(),
            data@.len() == data.len(),
            v as nat == le_value(data@.subrange(p + i, p + k)),
        decreases i,
    {
        let ghost rest = data@.subrange(p + i, p + k);
        let ghost s = data@.subrange(p + i - 1, p + k);
        assert(s.drop_first() =~= rest);
        proof {
            lemma_le_value_bound(rest);
            lemma_byte_ranges();
            lemma_byte_range_at_most(rest.len());
        }
        let b = data[p + i - 1];
        assert(v * 256 + b < 0x1_0000_0000_0000_0000) by (nonlinear_arith)
            requires
                v < byte_range(rest.len()),
                byte_range(rest.len()) <= byte_range(7),
                byte_range(7) == 0x100_0000_0000_0000,
                b < 256,
        ;
        v = v * 256 + b as u64;
        i = i - 1;
    }
    v
}

/// The two-byte number at `pos`, moving the cursor past it.
fn load_u16_le(data: &[u8], pos: &mut usize) -> (r: Result<u16, ()>)
    ensures
        match rd_u16_at(data@, *old(pos) as int) {
            Some((v, q)) => r == Ok::<u16, ()>(v) && *final(pos) == q,
            None => r is Err && *final(pos) == *old(pos),
        },
{
    if data.len() < 2 || *pos > data.len() - 2 {
        return Err(());
    }
    let n = le_number(data, *pos, 2);
    proof {
        lemma_le_value_bound(data@.subrange(*pos as int, *pos + 2));
        lemma_byte_ranges();
    }
    *pos = *pos + 2;
    Ok(n as u16)
}

/// The length of the text value at `pos` (see `str_len_at`).
fn read_str_len(data: &[u8], pos: usize) -> (r: Result<usize, ()>)
    ensures
        match str_len_at(data@, pos as int) {
            Some(n) => r matches Ok(m) && m == n,
            None => r is Err,
        },
{
    let mut p = pos;
    match load_u16_le(data, &mut p) {
        Ok(n) => Ok(2 + n as usize),
        Err(()) => Err(()),
    }
}

/// The length of the custom attribute block at `start` (see
/// `custom_len_at`).
fn read_custom_attrs_len(data: &[u8], start: usize) -> (r: Result<usize, ()>)
    ensures
        match custom_len_at(data@, start as int) {
            Some(n) => r matches Ok(m) && m == n,
            None => r is Err,
        },
{
    if data.len() < 8 || start > data.len() - 8 {
        return Err(());
    }
    let count = le_number(data, start, 8);
    let ghost d = data@;
    let mut pos: usize = start + 8;
    let mut k: u64 = 0;
    while k < count
        invariant
            d == data@,
            d.len() == data.len(),
            start + 8 <= pos <= d.len(),
            k <= count,
            count as nat == le_value(d.subrange(start as int, start + 8)),
            custom_end(d, start + 8, count as nat) == custom_end(d, pos as int, (count - k) as nat),
        decreases count - k,
    {
        let ghost p0 = pos as int;
        let mut q = pos;
        let klen = match load_u16_le(data, &mut q) {
            Ok(n) => n as usize,
            Err(()) => {
                return Err(());
            },
        };
        if klen >= data.len() - q {
            return Err(());
        }
        let t = q + klen;
        let vt = data[t];
        let v = t + 1;
        let size: usize = if vt == 1 {
            let mut w = v;
            match load_u16_le(data, &mut w) {
                Ok(n) => 2 + n as usize,
                Err(()) => {
                    return Err(());
                },
            }
        } else if vt == 2 || vt == 3 {
            4
        } else if vt == 4 {
            1
        } else {
            return Err(());
        };
        if size > data.len() - v {
            return Err(());
        }
        pos = v + size;
        assert(custom_entry_end(d, p0) == Some(pos as int));
        k = k + 1;
    }
    Ok(pos - start)
}

/// The length of the value of attribute `attr_type` at `pos` (see
/// `payload_len_at`).
fn attr_payload_len(attr_type: u8, data: &[u8], pos: usize) -> (r: Result<usize, ()>)
    ensures
        match payload_len_at(attr_type, data@, pos as int) {
            Some(n) => r matches Ok(m) && m == n,
            None => r is Err,
        },
{
    let t = attr_type;
    if t == 3 || t == 16 || t == 18 || t == 20 || t == 21 || t == 27 || t == 38 {
        Ok(4)
    } else if t == 4 || t == 5 || t == 9 || t == 10 || t == 12 || t == 22 || t == 28 || t == 29
        || t == 30 || t == 31 || t == 35 {
        Ok(2)
    } else if t == 14 || t == 15 || t == 17 || t == 32 || t == 33 {
        Ok(1)
    } else if t == 8 {
        Ok(5)
    } else if t == 6 || t == 7 || t == 19 || t == 24 || t == 25 || t == 26 {
        read_str_len(data, pos)
    } else if t == 34 {
        read_custom_attrs_len(data, pos)
    } else {
        Err(())
    }
}

/// The value of attribute `attr_type` at `pos`, moving the cursor past it.
fn read_attr_payload(attr_type: u8, data: &[u8], pos: &mut usize) -> (r: Result<Vec<u8>, ()>)
    ensures
        match payload_len_at(attr_type, data@, *old(pos) as int) {
            Some(n) => if *old(pos) + n > data@.len() {
                r is Err
            } else {
                r matches Ok(v) && v@ == data@.subrange(*old(pos) as int, *old(pos) + n)
                    && *final(pos) == *old(pos) + n
            },
            None => r is Err,
        },
{
    let len = match attr_payload_len(attr_type, data, *pos) {
        Ok(n) => n,
        Err(()) => {
            return Err(());
        },
    };
    if *pos > data.len() || len > data.len() - *pos {
        return Err(());
    }
    let start = *pos;
    let mut payload: Vec<u8> = Vec::new();
    let mut i: usize = 0;
    while i < len
        invariant
            i <= len,
            start + len <= data@.len(),
            data@.len() == data.len(),
            payload@ == data@.subrange(start as int, start + i),
        decreases len - i,
    {
        payload.push(data[start + i]);
        i = i + 1;
        assert(payload@ =~= data@.subrange(start as int, start + i));
    }
    *pos = start + len;
    Ok(payload)
}

/// A scan result with `pre` in front of what it read.
pub open spec fn joined<T>(pre: Seq<T>, r: Option<(Seq<T>, int)>) -> Option<(Seq<T>, int)> {
    match r {
        Some((rest, e)) => Some((pre + rest, e)),
        None => None,
    }
}

/// The attribute bytes at `pos` (see `attrs_scan`), moving the cursor past
/// them and the tag that ends them.
fn load_item_attrs(data: &[u8], pos: &mut usize) -> (r: Result<Vec<u8>, ()>)
    ensures
        match attrs_scan(data@, *old(pos) as int) {
            Some((a, e)) => r matches Ok(v) && v@ == a && *final(pos) == e && e >= *old(pos),
            None => r is Err,
        },
{
    let ghost d = data@;
    let ghost p0 = *pos as int;
    let mut attrs: Vec<u8> = Vec::new();
    loop
        invariant
            d == data@,
            d.len() == data.len(),
            p0 == *old(pos),
            p0 <= *pos,
            attrs_scan(d, p0) == joined(attrs@, attrs_scan(d, *pos as int)),
        decreases d.len() - *pos,
    {
        if *pos >= data.len() {
            assert(attrs@ + Seq::<u8>::empty() =~= attrs@);
            return Ok(attrs);
        }
        let attr_type = data[*pos];
        if attr_type == 0 || attr_type == ATTR_CONTAINER_ITEMS {
            *pos = *pos + 1;
            assert(attrs@ + Seq::<u8>::empty() =~= attrs@);
            return Ok(attrs);
        }
        let ghost p = *pos as int;
        let ghost before = attrs@;
        attrs.push(attr_type);
        *pos = *pos + 1;
        let payload = read_attr_payload(attr_type, data, pos);
        match payload {
            Ok(bytes) => {
                let mut i: usize = 0;
                let ghost mid = attrs@;
                while i < bytes.len()
                    invariant
                        i <= bytes@.len(),
                        attrs@ == mid + bytes@.take(i as int),
                    decreases bytes@.len() - i,
                {
                    attrs.push(bytes[i]);
                    i = i + 1;
                    assert(attrs@ =~= mid + bytes@.take(i as int));
                }
                assert(bytes@.take(bytes@.len() as int) =~= bytes@);
                proof {
                    let r = attrs_scan(d, *pos as int);
                    match r {
                        Some((rest, e)) => {
                            assert(before + (seq![attr_type] + bytes@ + rest) =~= attrs@ + rest);
                        },
                        None => {},
                    }
                }
            },
            Err(()) => {
                return Err(());
            },
        }
    }
}

/// Reads an item id and its attribute bytes at `pos` (see `item_scan`),
/// moving the cursor past them.
pub fn load_item(data: &[u8], pos: &mut usize) -> (r: Result<(u16, Vec<u8>), ()>)
    ensures
        match item_scan(data@, *old(pos) as int) {
            Some((id, a, e)) => r matches Ok((i, v)) && i == id && v@ == a && *final(pos) == e && e
                >= *old(pos) + 2,
            None => r is Err,
        },
{
    let id = load_u16_le(data, pos)?;
    let attrs = load_item_attrs(data, pos)?;
    Ok((id, attrs))
}

/// The ids and attribute bytes of `v`.
pub open spec fn pairs_view(v: Seq<(u16, Vec<u8>)>) -> Seq<(u16, Seq<u8>)> {
    v.map_values(|x: (u16, Vec<u8>)| (x.0, x.1@))
}

/// Reads the items of a container at `pos` (see `container_scan`), moving
/// the cursor past them.
pub fn load_container(data: &[u8], pos: &mut usize) -> (r: Result<Vec<(u16, Vec<u8>)>, ()>)
    ensures
        match container_scan(data@, *old(pos) as int) {
            Some((s, e)) => r matches Ok(v) && pairs_view(v@) == s && *final(pos) == e,
            None => r is Err,
        },
{
    let ghost d = data@;
    let ghost p0 = *pos as int;
    let mut items: Vec<(u16, Vec<u8>)> = Vec::new();
    loop
        invariant
            d == data@,
            d.len() == data.len(),
            p0 == *old(pos),
            container_scan(d, p0) == joined(pairs_view(items@), container_scan(d, *pos as int)),
        decreases d.len() - *pos,
    {
        let ghost p = *pos as int;
        let (id, attrs) = load_item(data, pos)?;
        let ghost a = attrs@;
        let ghost before = pairs_view(items@);
        items.push((id, attrs));
        assert(pairs_view(items@) =~= before + seq![(id, a)]);
        if *pos >= data.len() {
            return Err(());
        }
        let end = data[*pos];
        *pos = *pos + 1;
        if end == 0 {
            assert(before + seq![(id, a)] =~= pairs_view(items@));
            return Ok(items);
        }
        proof {
            match container_scan(d, *pos as int) {
                Some((rest, e)) => {
                    assert(before + (seq![(id, a)] + rest) =~= pairs_view(items@) + rest);
                },
                None => {},
            }
        }
    }
}

/// `d` holds the first `m` bytes of `x` from `at` on.
pub open spec fn holds_at(d: Seq<u8>, at: int, x: Seq<u8>, m: int) -> bool {
    &&& 0 <= at
    &&& 0 <= m <= x.len()
    &&& at + m <= d.len()
    &&& d.subrange(at, at + m) == x.subrange(0, m)
}

proof fn lemma_holds_byte(d: Seq<u8>, at: int, x: Seq<u8>, m: int, j: int)
    requires
        holds_at(d, at, x, m),
        0 <= j < m,
    ensures
        d[at + j] == x[j],
{
    assert(d.subrange(at, at + m)[j] == x.subrange(0, m)[j]);
}

proof fn lemma_holds_window(d: Seq<u8>, at: int, x: Seq<u8>, m: int, q: int, n: int)
    requires
        holds_at(d, at, x, m),
        0 <= q,
        0 <= n,
        q + n <= m,
    ensures
        d.subrange(at + q, at + q + n) == x.subrange(q, q + n),
{
    assert forall|j: int| 0 <= j < n implies #[trigger] d.subrange(at + q, at + q + n)[j]
        == x.subrange(q, q + n)[j] by {
        lemma_holds_byte(d, at, x, m, q + j);
    }
    assert(d.subrange(at + q, at + q + n) =~= x.subrange(q, q + n));
}

proof fn lemma_holds_u16(d: Seq<u8>, at: int, x: Seq<u8>, m: int, q: int)
    requires
        holds_at(d, at, x, m),
        0 <= q,
        q + 2 <= m,
    ensures
        rd_u16_at(d, at + q) == match rd_u16_at(x, q) {
            Some((v, e)) => Some((v, at + e)),
            None => None,
        },
{
    lemma_holds_window(d, at, x, m, q, 2);
}

proof fn lemma_entry_framed(d: Seq<u8>, at: int, x: Seq<u8>, m: int, p: int)
    requires
        holds_at(d, at, x, m),
        0 <= p,
        custom_entry_end(x, p) matches Some(e) && e <= m,
    ensures
        custom_entry_end(x, p) matches Some(e) && e > p && custom_entry_end(d, at + p) == Some(
            at + e,
        ),
{
    lemma_holds_u16(d, at, x, m, p);
    let (klen, q) = rd_u16_at(x, p).unwrap();
    let t = q + klen;
    lemma_holds_byte(d, at, x, m, t);
    if x[t] == 1 {
        lemma_holds_u16(d, at, x, m, t + 1);
    }
}

proof fn lemma_custom_end_framed(d: Seq<u8>, at: int, x: Seq<u8>, m: int, p: int, k: nat)
    requires
        holds_at(d, at, x, m),
        0 <= p,
        custom_end(x, p, k) matches Some(e) && e <= m,
    ensures
        custom_end(x, p, k) matches Some(e) && e >= p && custom_end(d, at + p, k) == Some(at + e),
    decreases k,
{
    if k > 0 {
        let q = custom_entry_end(x, p).unwrap();
        lemma_entry_advances(x, p);
        lemma_custom_end_framed(d, at, x, m, q, (k - 1) as nat);
        lemma_entry_framed(d, at, x, m, p);
    }
}

proof fn lemma_entry_advances(x: Seq<u8>, p: int)
    ensures
        custom_entry_end(x, p) matches Some(e) ==> e > p,
{
}

proof fn lemma_payload_framed(d: Seq<u8>, at: int, x: Seq<u8>, m: int, t: u8, q: int)
    requires
        holds_at(d, at, x, m),
        0 <= q,
        payload_len_at(t, x, q) matches Some(n) && q + n <= m,
    ensures
        payload_len_at(t, d, at + q) == payload_len_at(t, x, q),
{
    if t == 6 || t == 7 || t == 19 || t == 24 || t == 25 || t == 26 {
        lemma_holds_u16(d, at, x, m, q);
    } else if t == 34 {
        let count = le_value(x.subrange(q, q + 8));
        lemma_custom_end_framed(d, at, x, m, q + 8, count);
        lemma_holds_window(d, at, x, m, q, 8);
    }
}

/// Scanning attribute bytes that read back on their own gives them again
/// wherever they stand, before a zero or container tag.
#[verifier::spinoff_prover]
#[verifier::rlimit(40)]
proof fn lemma_scan_framed(d: Seq<u8>, at: int, attrs: Seq<u8>, i: int)
    requires
        holds_at(d, at, attrs, attrs.len() as int),
        at + attrs.len() < d.len(),
        d[at + attrs.len()] == 0 || d[at + attrs.len()] == ATTR_CONTAINER_ITEMS,
        0 <= i <= attrs.len(),
        attrs_scan(attrs + seq![0u8], i) == Some(
            (attrs.subrange(i, attrs.len() as int), attrs.len() + 1int),
        ),
    ensures
        attrs_scan(d, at + i) == Some((attrs.subrange(i, attrs.len() as int), at + attrs.len() + 1)),
    decreases attrs.len() - i,
{
    let x = attrs + seq![0u8];
    let m = attrs.len() as int;
    assert(x.subrange(0, m) =~= attrs.subrange(0, m));
    assert(attrs.subrange(0, m) =~= attrs);
    assert(holds_at(d, at, x, m));
    if i == m {
        assert(attrs.subrange(m, m) =~= Seq::<u8>::empty());
    } else {
        lemma_holds_byte(d, at, x, m, i);
        let t = x[i];
        assert(t != 0 && t != ATTR_CONTAINER_ITEMS);
        let n = payload_len_at(t, x, i + 1).unwrap() as int;
        let (rest, e) = attrs_scan(x, i + 1 + n).unwrap();
        let whole = seq![t] + x.subrange(i + 1, i + 1 + n) + rest;
        assert(whole == attrs.subrange(i, m));
        assert(whole.len() == 1 + n + rest.len());
        assert(i + 1 + n <= m);
        assert(rest =~= attrs.subrange(i + 1 + n, m)) by {
            assert forall|j: int| 0 <= j < rest.len() implies #[trigger] rest[j]
                == attrs.subrange(i + 1 + n, m)[j] by {
                assert(whole[1 + n + j] == rest[j]);
                assert(attrs.subrange(i, m)[1 + n + j] == attrs[i + 1 + n + j]);
            }
        }
        lemma_scan_framed(d, at, attrs, i + 1 + n);
        lemma_payload_framed(d, at, x, m, t, i + 1);
        lemma_holds_window(d, at, x, m, i + 1, n);
    }
}

/// Reading an item from what `save_item` wrote for it gives back its id
/// and attribute bytes and stops right after them (after the zero byte of
/// an item without held items, after the container tag of one with them),
/// whatever bytes stand before and after, where the attribute bytes read
/// back on their own: scanning them followed by a zero byte gives them all.
pub proof fn law_saved_item_read_back(
    pre: Seq<u8>,
    id: u16,
    attrs: Seq<u8>,
    children: Option<Seq<SavedItem>>,
    rest: Seq<u8>,
)
    requires
        attrs_scan(attrs + seq![0u8], 0) == Some((attrs, attrs.len() + 1int)),
    ensures
        item_scan(pre + item_record(id, attrs, children) + rest, pre.len() as int) == Some(
            (id, attrs, pre.len() + attrs.len() + 3int),
        ),
{
    let rec = item_record(id, attrs, children);
    let d = pre + rec + rest;
    let at = pre.len() + 2int;
    let m = attrs.len() as int;
    lemma_byte_ranges();
    lemma_le_roundtrip(id as nat, 2);
    assert(d.subrange(pre.len() as int, pre.len() + 2int) =~= le_bytes(id as nat, 2));
    assert(d.subrange(at, at + m) =~= attrs.subrange(0, m));
    assert(d[at + m] == rec[2 + m]);
    assert(attrs.subrange(0, m) =~= attrs);
    lemma_scan_framed(d, at, attrs, 0);
}

/// An item as the stored form gives it: its id, its attributes, the
/// fields that the stored form does not hold, and the items it holds.
pub ghost struct ItemTree {
    pub server_id: u16,
    pub attrs: AttrsView,
    pub fluid_type: u16,
    pub loaded_from_map: bool,
    pub owner_id: u32,
    pub custom_attributes: Map<String, CustomAttributeValue>,
    pub children: Seq<ItemTree>,
}

/// The tree of `item` and the items it holds.
pub open spec fn tree_of(item: MapItem) -> ItemTree
    decreases item,
{
    ItemTree {
        server_id: item.server_id,
        attrs: attrs_of(item),
        fluid_type: item.fluid_type,
        loaded_from_map: item.loaded_from_map,
        owner_id: item.owner_id,
        custom_attributes: item.custom_attributes@,
        children: trees_of(item.children@),
    }
}

/// The trees of the items of `s`, in order.
pub open spec fn trees_of(s: Seq<MapItem>) -> Seq<ItemTree>
    decreases s,
{
    if s.len() == 0 {
        Seq::empty()
    } else {
        trees_of(s.subrange(0, s.len() - 1)).push(tree_of(s[s.len() - 1]))
    }
}

/// The attributes of a freshly read item: a count of one, nothing else.
pub open spec fn fresh_attrs() -> AttrsView {
    AttrsView {
        count: 1,
        action_id: 0,
        unique_id: 0,
        text: Seq::empty(),
        description: Seq::empty(),
        teleport_destination: None,
        depot_id: 0,
        rune_charges: 0,
        house_door_id: 0,
        charges: 0,
        duration: 0,
        decaying_state: 0,
        written_date: 0,
        written_by: Seq::empty(),
        sleeper_guid: 0,
        sleep_start: 0,
        name: Seq::empty(),
        article: Seq::empty(),
        plural_name: Seq::empty(),
        weight: 0,
        attack: 0,
        defense: 0,
        extra_defense: 0,
        armor: 0,
        hit_chance: 0,
        shoot_range: 0,
        decay_to: 0,
    }
}

/// A freshly read item with id `id`, before its attributes.
pub open spec fn fresh_tree(id: u16) -> ItemTree {
    ItemTree {
        server_id: id,
        attrs: fresh_attrs(),
        fluid_type: 0,
        loaded_from_map: false,
        owner_id: 0,
        custom_attributes: Map::empty(),
        children: Seq::empty(),
    }
}

/// The item stored at `p` (its id, then its attributes and held items
/// until a zero byte), and the position after it.
pub open spec fn item_parse(d: Seq<u8>, p: int) -> Option<(ItemTree, int)>
    decreases d.len() - p, 0int,
{
    match rd_u16_at(d, p) {
        Some((id, q)) => if q <= d.len() {
            attrs_loop(fresh_tree(id), d, q)
        } else {
            None
        },
        None => None,
    }
}

/// The item `t` after reading its attributes and held items from `q` on,
/// up to and with a zero byte: a container tag is followed by a four-byte
/// number of held items and the items; another tag by its value (see
/// `apply_attr`).
pub open spec fn attrs_loop(t: ItemTree, d: Seq<u8>, q: int) -> Option<(ItemTree, int)>
    decreases d.len() - q, 0int,
{
    if q < 0 || q >= d.len() {
        None
    } else if d[q] == 0 {
        Some((t, q + 1))
    } else if d[q] == ATTR_CONTAINER_ITEMS {
        match rd_u32_at(d, q + 1) {
            Some((count, r)) => if r <= d.len() {
                children_parse(t, d, r, count as nat)
            } else {
                None
            },
            None => None,
        }
    } else {
        match apply_attr(t.attrs, d[q], d, q + 1) {
            Some((a2, r)) => if q < r <= d.len() {
                attrs_loop(ItemTree { attrs: a2, ..t }, d, r)
            } else {
                None
            },
            None => None,
        }
    }
}

/// The item `t` after reading `k` more held items from `q` on and then the
/// rest of its attributes (see `attrs_loop`).
pub open spec fn children_parse(t: ItemTree, d: Seq<u8>, q: int, k: nat) -> Option<(ItemTree, int)>
    decreases d.len() - q, 1int,
{
    if q < 0 || q > d.len() {
        None
    } else if k == 0 {
        attrs_loop(t, d, q)
    } else {
        match item_parse(d, q) {
            Some((c, r)) => if q < r <= d.len() {
                children_parse(ItemTree { children: t.children.push(c), ..t }, d, r, (k - 1) as nat)
            } else {
                None
            },
            None => None,
        }
    }
}

/// A new item with id `server_id`, a count of one and nothing else.
pub(crate) fn new_loaded_item(server_id: u16) -> (item: MapItem)
    ensures
        tree_of(item) == fresh_tree(server_id),
{
    let item = MapItem {
        server_id,
        count: 1,
        action_id: 0,
        unique_id: 0,
        text: String::new(),
        description: String::new(),
        teleport_destination: None,
        depot_id: 0,
        rune_charges: 0,
        house_door_id: 0,
        charges: 0,
        duration: 0,
        decaying_state: 0,
        written_date: 0,
        written_by: String::new(),
        sleeper_guid: 0,
        sleep_start: 0,
        name: String::new(),
        article: String::new(),
        plural_name: String::new(),
        weight: 0,
        attack: 0,
        defense: 0,
        extra_defense: 0,
        armor: 0,
        hit_chance: 0,
        shoot_range: 0,
        decay_to: 0,
        fluid_type: 0,
        loaded_from_map: false,
        custom_attributes: HashMap::new(),
        children: Vec::new(),
        owner_id: 0,
    };
    assert(trees_of(item.children@) =~= Seq::<ItemTree>::empty());
    item
}

/// The trees of `s` are those of its items, one by one.
pub proof fn lemma_trees_pointwise(s: Seq<MapItem>)
    ensures
        trees_of(s) == Seq::new(s.len(), |i: int| tree_of(s[i])),
    decreases s.len(),
{
    if s.len() > 0 {
        let p = s.subrange(0, s.len() - 1);
        lemma_trees_pointwise(p);
        assert(trees_of(s) =~= Seq::new(s.len(), |i: int| tree_of(s[i])));
    } else {
        assert(trees_of(s) =~= Seq::new(s.len(), |i: int| tree_of(s[i])));
    }
}

pub(crate) proof fn lemma_trees_push(s: Seq<MapItem>, c: MapItem)
    ensures
        trees_of(s.push(c)) == trees_of(s).push(tree_of(c)),
{
    let t = s.push(c);
    assert(t.subrange(0, t.len() - 1) =~= s);
}

/// Reads the item stored at `pos`: its id, then its attributes and held
/// items up to a zero byte (see `item_parse`), moving the cursor past it;
/// `None` where a tag is not known or the bytes end too soon.
pub fn deserialize_item(data: &[u8], pos: &mut usize) -> (r: Option<MapItem>)
    ensures
        match item_parse(data@, *old(pos) as int) {
            Some((t, e)) => r matches Some(item) && tree_of(item) == t && *final(pos) == e,
            None => r is None,
        },
        r is Some ==> *old(pos) < *final(pos) <= data@.len(),
    decreases data@.len() - *old(pos),
{
    let ghost d = data@;
    let ghost p0 = *pos as int;
    let server_id = rd_u16(data, pos)?;
    let mut item = new_loaded_item(server_id);
    loop
        invariant
            d == data@,
            p0 == *old(pos),
            p0 + 2 <= *pos <= d.len(),
            item_parse(d, p0) == attrs_loop(tree_of(item), d, *pos as int),
        decreases d.len() - *pos,
    {
        let at = *pos;
        let attr = rd_u8(data, pos)?;
        if attr == 0 {
            return Some(item);
        }
        if attr == ATTR_CONTAINER_ITEMS {
            let count = rd_u32(data, pos)?;
            let mut k: u32 = 0;
            while k < count
                invariant
                    d == data@,
                    p0 == *old(pos),
                    p0 + 2 < *pos <= d.len(),
                    at < *pos,
                    k <= count,
                    item_parse(d, p0) == children_parse(
                        tree_of(item),
                        d,
                        *pos as int,
                        (count - k) as nat,
                    ),
                decreases count - k,
            {
                let child = deserialize_item(data, pos)?;
                let ghost before = item;
                item.children.push(child);
                proof {
                    lemma_trees_push(before.children@, child);
                    assert(tree_of(item) == ItemTree {
                        children: tree_of(before).children.push(tree_of(child)),
                        ..tree_of(before)
                    });
                }
                k = k + 1;
            }
        } else {
            let ghost before = item;
            apply_item_attr(&mut item, attr, data, pos)?;
            assert(tree_of(item) == ItemTree { attrs: attrs_of(item), ..tree_of(before) });
        }
    }
}

/// Reading the attributes of an item, stored in `attrs` from `pre.len()`
/// on in `d` and followed by a zero byte, gives what reading them on their
/// own gives.
proof fn lemma_loop_framed(
    d: Seq<u8>,
    pre: Seq<u8>,
    attrs: Seq<u8>,
    rest: Seq<u8>,
    t: ItemTree,
    a: AttrsView,
    fin: AttrsView,
    i: int,
)
    requires
        d == pre + (attrs + (seq![0u8] + rest)),
        0 <= i <= attrs.len(),
        read_attrs_from(a, attrs, i) == Some((fin, attrs.len() as int)),
        read_attrs_from(a, attrs + seq![0u8], i) == Some((fin, attrs.len() + 1int)),
    ensures
        attrs_loop(ItemTree { attrs: a, ..t }, d, pre.len() + i) == Some(
            (ItemTree { attrs: fin, ..t }, pre.len() + attrs.len() + 1int),
        ),
    decreases attrs.len() - i,
{
    let x = attrs + seq![0u8];
    let m = attrs.len() as int;
    let at = pre.len() as int;
    let tail = seq![0u8] + rest;
    assert(d[at + m] == 0);
    if i < m {
        let b = attrs[i];
        assert(d[at + i] == b);
        assert(x[i] == b);
        if b == 0 {
            assert(false);
        }
        lemma_container_tag_unread(a, attrs, i + 1);
        let (a2, q) = apply_attr(a, b, attrs, i + 1).unwrap();
        lemma_apply_extend(a, b, attrs, seq![0u8], i + 1);
        lemma_apply_extend(a, b, attrs, tail, i + 1);
        lemma_apply_shift(a, b, pre, attrs + tail, i + 1);
        assert(apply_attr(a, b, d, at + i + 1) == Some((a2, at + q)));
        lemma_loop_framed(d, pre, attrs, rest, t, a2, fin, q);
        assert(ItemTree { attrs: a2, ..ItemTree { attrs: a, ..t } } == ItemTree { attrs: a2, ..t });
    }
}

/// Reading back an item that `save_item` wrote without held items gives an
/// item with its id and the attributes its attribute bytes hold, and stops
/// right after it, whatever bytes stand before and after, where the
/// attribute bytes read on their own to their end and, followed by a zero
/// byte, up to and with that byte.
pub proof fn law_saved_item_deserialized(
    pre: Seq<u8>,
    id: u16,
    attrs: Seq<u8>,
    rest: Seq<u8>,
    fin: AttrsView,
)
    requires
        read_attrs_from(fresh_attrs(), attrs, 0) == Some((fin, attrs.len() as int)),
        read_attrs_from(fresh_attrs(), attrs + seq![0u8], 0) == Some((fin, attrs.len() + 1int)),
    ensures
        item_parse(pre + item_record(id, attrs, None) + rest, pre.len() as int) == Some(
            (ItemTree { attrs: fin, ..fresh_tree(id) }, pre.len() + attrs.len() + 3int),
        ),
{
    let d = pre + item_record(id, attrs, None) + rest;
    let head = pre + le_bytes(id as nat, 2);
    lemma_byte_ranges();
    lemma_le_roundtrip(id as nat, 2);
    assert(d =~= head + (attrs + (seq![0u8] + rest)));
    assert(d.subrange(pre.len() as int, pre.len() + 2int) =~= le_bytes(id as nat, 2));
    lemma_loop_framed(d, head, attrs, rest, fresh_tree(id), fresh_attrs(), fin, 0);
    assert(ItemTree { attrs: fresh_attrs(), ..fresh_tree(id) } == fresh_tree(id));
}

/// An attribute record: its tag followed by its value.
pub open spec fn record_bytes(r: (u8, Seq<u8>)) -> Seq<u8> {
    seq![r.0] + r.1
}

/// Attribute records one after the other.
pub open spec fn records_bytes(rs: Seq<(u8, Seq<u8>)>) -> Seq<u8>
    decreases rs.len(),
{
    if rs.len() == 0 {
        Seq::empty()
    } else {
        records_bytes(rs.drop_last()) + record_bytes(rs.last())
    }
}

/// A well-formed attribute record: its tag is no end or container tag, and
/// the value's length, read as that tag's values are, is the value's
/// length.
pub open spec fn record_ok(r: (u8, Seq<u8>)) -> bool {
    &&& r.0 != 0
    &&& r.0 != ATTR_CONTAINER_ITEMS
    &&& payload_len_at(r.0, record_bytes(r), 1) == Some(r.1.len())
}

proof fn lemma_records_prefix(rs: Seq<(u8, Seq<u8>)>, j: int)
    requires
        0 <= j <= rs.len(),
    ensures
        records_bytes(rs.take(j)).len() <= records_bytes(rs).len(),
        records_bytes(rs).take(records_bytes(rs.take(j)).len() as int) == records_bytes(rs.take(j)),
    decreases rs.len() - j,
{
    if j == rs.len() {
        assert(rs.take(j) =~= rs);
        assert(records_bytes(rs).take(records_bytes(rs).len() as int) =~= records_bytes(rs));
    } else {
        lemma_records_prefix(rs, j + 1);
        assert(rs.take(j + 1).drop_last() =~= rs.take(j));
        let a = records_bytes(rs.take(j));
        let b = records_bytes(rs.take(j + 1));
        assert(b == a + record_bytes(rs[j]));
        assert(records_bytes(rs).take(a.len() as int) =~= b.take(a.len() as int));
        assert(b.take(a.len() as int) =~= a);
    }
}

/// Scanning well-formed records followed by a zero byte, from the start of
/// the record numbered `k`, gives the bytes of the remaining records and
/// stops after the zero byte.
proof fn lemma_records_scan(rs: Seq<(u8, Seq<u8>)>, k: int)
    requires
        0 <= k <= rs.len(),
        forall|i: int| 0 <= i < rs.len() ==> record_ok(#[trigger] rs[i]),
    ensures
        ({
            let b = records_bytes(rs);
            let o = records_bytes(rs.take(k)).len() as int;
            attrs_scan(b + seq![0u8], o) == Some((b.subrange(o, b.len() as int), b.len() + 1int))
        }),
    decreases rs.len() - k,
{
    let b = records_bytes(rs);
    let d = b + seq![0u8];
    let o = records_bytes(rs.take(k)).len() as int;
    lemma_records_prefix(rs, k);
    if k == rs.len() {
        assert(rs.take(k) =~= rs);
        assert(d[o] == 0);
        assert(b.subrange(o, b.len() as int) =~= Seq::<u8>::empty());
    } else {
        let r = rs[k];
        let rb = record_bytes(r);
        let n = r.1.len() as int;
        lemma_records_prefix(rs, k + 1);
        assert(rs.take(k + 1).drop_last() =~= rs.take(k));
        let o2 = records_bytes(rs.take(k + 1)).len() as int;
        assert(records_bytes(rs.take(k + 1)) == records_bytes(rs.take(k)) + rb);
        assert(o2 == o + 1 + n);
        assert(d.subrange(o, o + rb.len()) =~= rb.subrange(0, rb.len() as int)) by {
            assert forall|j: int| 0 <= j < rb.len() implies #[trigger] d.subrange(o, o + rb.len())[j]
                == rb.subrange(0, rb.len() as int)[j] by {
                assert(records_bytes(rs.take(k + 1))[o + j] == rb[j]);
                assert(b.take(o2)[o + j] == b[o + j]);
            }
        }
        assert(holds_at(d, o, rb, rb.len() as int));
        assert(record_ok(r));
        lemma_payload_framed(d, o, rb, rb.len() as int, r.0, 1);
        assert(d[o] == r.0) by {
            assert(d.subrange(o, o + rb.len())[0] == rb[0]);
        }
        lemma_records_scan(rs, k + 1);
        assert(attrs_scan(d, o) == Some((seq![r.0] + d.subrange(o + 1, o + 1 + n) + b.subrange(
            o2,
            b.len() as int,
        ), b.len() + 1int)));
        assert(seq![r.0] + d.subrange(o + 1, o + 1 + n) + b.subrange(o2, b.len() as int) =~= b.subrange(
            o,
            b.len() as int,
        )) by {
            assert forall|j: int| 0 <= j < o2 - o implies #[trigger] b.subrange(o, b.len() as int)[j]
                == (seq![r.0] + d.subrange(o + 1, o + 1 + n))[j] by {
                assert(d.subrange(o, o + rb.len())[j] == rb[j]);
            }
        }
    }
}

/// Reading an item from what `save_item` wrote for it, where its attribute
/// bytes are well-formed attribute records one after the other, gives back
/// its id and attribute bytes and stops right after them, whatever bytes
/// stand before and after.
pub proof fn law_attr_records_read_back(
    pre: Seq<u8>,
    id: u16,
    rs: Seq<(u8, Seq<u8>)>,
    children: Option<Seq<SavedItem>>,
    rest: Seq<u8>,
)
    requires
        forall|i: int| 0 <= i < rs.len() ==> record_ok(#[trigger] rs[i]),
    ensures
        item_scan(pre + item_record(id, records_bytes(rs), children) + rest, pre.len() as int) == Some(
            (id, records_bytes(rs), pre.len() + records_bytes(rs).len() + 3int),
        ),
{
    let b = records_bytes(rs);
    lemma_records_scan(rs, 0);
    assert(rs.take(0) =~= Seq::<(u8, Seq<u8>)>::empty());
    assert(b.subrange(0, b.len() as int) =~= b);
    law_saved_item_read_back(pre, id, b, children, rest);
}

proof fn lemma_byte_range_at_most(k: nat)
    requires
        k <= 7,
    ensures
        byte_range(k) <= byte_range(7),
        byte_range(7) == 0x100_0000_0000_0000,
{
    reveal_with_fuel(byte_range, 8);
}


/// What the item list says of an item, and of each item it holds, for
/// storing it: whether its count is stored (stackable, fluid or splash),
/// whether it is moveable (its action id is stored), and whether it is a
/// container (its held items are stored).
#[derive(Debug)]
pub struct SaveFacts {
    pub count_type: bool,
    pub moveable: bool,
    pub is_container: bool,
    pub children: Vec<SaveFacts>,
}

/// Whether `f` describes `item` and each item it holds, one for one, and
/// the number of held items fits four bytes.
pub open spec fn facts_match(item: MapItem, f: SaveFacts) -> bool
    decreases item,
{
    &&& f.children@.len() == item.children@.len()
    &&& item.children@.len() <= u32::MAX
    &&& forall|i: int|
        0 <= i < item.children@.len() ==> facts_match(#[trigger] item.children@[i], f.children@[i])
}

/// The stored form of `item` with facts `f`: its id, its attribute bytes,
/// for a container with held items the container tag, their number and
/// each of them from the last to the first, then a zero byte.
pub open spec fn stored_item(item: MapItem, f: SaveFacts) -> Seq<u8>
    decreases item, 1int,
{
    le_bytes(item.server_id as nat, 2) + item_attr_bytes(item, f.count_type, f.moveable) + (if f.is_container
        && item.children@.len() > 0 {
        seq![ATTR_CONTAINER_ITEMS] + le_bytes(item.children@.len(), 4) + stored_children(
            item,
            f,
            item.children@.len() as int,
        )
    } else {
        Seq::empty()
    }) + seq![0u8]
}

/// The stored forms of the first `n` items `item` holds, from the `n`-th
/// back to the first.
pub open spec fn stored_children(item: MapItem, f: SaveFacts, n: int) -> Seq<u8>
    decreases item, 0int, n,
{
    if n <= 0 || n > item.children@.len() || n > f.children@.len() {
        Seq::empty()
    } else {
        stored_item(item.children@[n - 1], f.children@[n - 1]) + stored_children(item, f, n - 1)
    }
}

/// Writes the stored form of `item` (see `stored_item`); `facts` gives what
/// the item list says of it and of each item it holds.
pub fn serialize_item(item: &MapItem, facts: &SaveFacts, out: &mut Vec<u8>)
    requires
        facts_match(*item, *facts),
    ensures
        final(out)@ == old(out)@ + stored_item(*item, *facts),
    decreases item,
{
    let ghost o = out@;
    push_u16(out, item.server_id);
    write_item_attrs(item, facts.count_type, facts.moveable, out);
    let ghost head = out@;
    let n = item.children.len();
    if facts.is_container && n > 0 {
        out.push(ATTR_CONTAINER_ITEMS);
        push_u32(out, n as u32);
        let ghost mid = out@;
        let mut i = n;
        while i > 0
            invariant
                i <= n,
                n == item.children@.len(),
                facts_match(*item, *facts),
                stored_children(*item, *facts, n as int) =~= out@.skip(mid.len() as int)
                    + stored_children(*item, *facts, i as int),
                mid.len() <= out@.len(),
                out@.subrange(0, mid.len() as int) == mid,
            decreases i,
        {
            i = i - 1;
            proof {
                assert(decreases_to!(*item => item.children@[i as int]));
            }
            let ghost before = out@;
            serialize_item(&item.children[i], &facts.children[i], out);
            proof {
                assert(out@.skip(mid.len() as int) =~= before.skip(mid.len() as int) + stored_item(
                    item.children@[i as int],
                    facts.children@[i as int],
                ));
                assert(out@.subrange(0, mid.len() as int) =~= before.subrange(0, mid.len() as int));
            }
        }
        proof {
            assert(out@ =~= mid + out@.skip(mid.len() as int));
        }
    }
    out.push(0);
    proof {
        assert(out@ =~= o + stored_item(*item, *facts));
    }
}


/// Reading the attributes of an item, stored in `attrs` from `pre.len()`
/// on in `d` and followed by any bytes, goes on after them with what
/// reading them on their own gives.
proof fn lemma_loop_through(
    d: Seq<u8>,
    pre: Seq<u8>,
    attrs: Seq<u8>,
    rest: Seq<u8>,
    t: ItemTree,
    a: AttrsView,
    fin: AttrsView,
    i: int,
)
    requires
        d == pre + (attrs + rest),
        0 <= i <= attrs.len(),
        read_attrs_from(a, attrs, i) == Some((fin, attrs.len() as int)),
        read_attrs_from(a, attrs + seq![0u8], i) == Some((fin, attrs.len() + 1int)),
    ensures
        attrs_loop(ItemTree { attrs: a, ..t }, d, pre.len() + i) == attrs_loop(
            ItemTree { attrs: fin, ..t },
            d,
            pre.len() + attrs.len() as int,
        ),
    decreases attrs.len() - i,
{
    let x = attrs + seq![0u8];
    let m = attrs.len() as int;
    let at = pre.len() as int;
    if i < m {
        let b = attrs[i];
        assert(d[at + i] == b);
        assert(x[i] == b);
        if b == 0 {
            assert(false);
        }
        lemma_container_tag_unread(a, attrs, i + 1);
        let (a2, q) = apply_attr(a, b, attrs, i + 1).unwrap();
        lemma_apply_extend(a, b, attrs, seq![0u8], i + 1);
        lemma_apply_extend(a, b, attrs, rest, i + 1);
        lemma_apply_shift(a, b, pre, attrs + rest, i + 1);
        assert(apply_attr(a, b, d, at + i + 1) == Some((a2, at + q)));
        lemma_loop_through(d, pre, attrs, rest, t, a2, fin, q);
        assert(ItemTree { attrs: a2, ..ItemTree { attrs: a, ..t } } == ItemTree { attrs: a2, ..t });
    }
}

/// Whether the texts of `item` and of each item it holds fit their
/// two-byte lengths.
pub open spec fn all_texts_fit(item: MapItem) -> bool
    decreases item,
{
    &&& texts_fit(item)
    &&& forall|i: int| 0 <= i < item.children@.len() ==> all_texts_fit(#[trigger] item.children@[i])
}

/// What reading back the stored form of `item` (see `stored_item`) gives:
/// its id, the attributes stored for it read over those of a fresh item,
/// and for a container with held items the items it holds, read back, from
/// the last to the first.
pub open spec fn read_back(item: MapItem, f: SaveFacts) -> ItemTree
    decreases item, 1int, 0int,
{
    ItemTree {
        attrs: stored_over(fresh_attrs(), item, f.count_type, f.moveable),
        children: if f.is_container && item.children@.len() > 0 {
            read_back_children(item, f, item.children@.len() as int)
        } else {
            Seq::empty()
        },
        ..fresh_tree(item.server_id)
    }
}

/// The first `n` items `item` holds, read back, from the `n`-th back to the
/// first.
pub open spec fn read_back_children(item: MapItem, f: SaveFacts, n: int) -> Seq<ItemTree>
    decreases item, 0int, n,
{
    if n <= 0 || n > item.children@.len() || n > f.children@.len() {
        Seq::empty()
    } else {
        seq![read_back(item.children@[n - 1], f.children@[n - 1])] + read_back_children(item, f, n - 1)
    }
}

proof fn lemma_children_read_back(
    pre: Seq<u8>,
    item: MapItem,
    f: SaveFacts,
    n: int,
    rest: Seq<u8>,
    t: ItemTree,
)
    requires
        facts_match(item, f),
        all_texts_fit(item),
        0 <= n <= item.children@.len(),
    ensures
        children_parse(t, pre + stored_children(item, f, n) + rest, pre.len() as int, n as nat)
            == children_parse(
            ItemTree { children: t.children + read_back_children(item, f, n), ..t },
            pre + stored_children(item, f, n) + rest,
            (pre.len() + stored_children(item, f, n).len()) as int,
            0,
        ),
    decreases item, 0int, n,
{
    let d = pre + stored_children(item, f, n) + rest;
    if n == 0 {
        assert(t.children + read_back_children(item, f, 0) =~= t.children);
        assert(ItemTree { children: t.children, ..t } == t);
    } else {
        let c = item.children@[n - 1];
        let cf = f.children@[n - 1];
        let sc = stored_item(c, cf);
        let others = stored_children(item, f, n - 1);
        assert(decreases_to!(item => c));
        law_stored_item_read_back(pre, c, cf, others + rest);
        assert(d =~= pre + sc + (others + rest));
        let t2 = ItemTree { children: t.children.push(read_back(c, cf)), ..t };
        lemma_children_read_back(pre + sc, item, f, n - 1, rest, t2);
        assert(pre + sc + others + rest =~= d);
        assert(t2.children + read_back_children(item, f, n - 1) =~= t.children + read_back_children(
            item,
            f,
            n,
        ));
        assert(pre.len() + sc.len() + others.len() == pre.len() + stored_children(item, f, n).len());
    }
}

/// Reading back what `serialize_item` writes gives the item back, with the
/// attributes it stores and, for a container, the items it holds in
/// reverse order (the stored form lists them from the last to the first and
/// reading keeps the order of the stored form), and stops right after it,
/// whatever bytes stand before and after; the texts must fit their
/// two-byte lengths.
#[verifier::rlimit(60)]
pub proof fn law_stored_item_read_back(pre: Seq<u8>, item: MapItem, f: SaveFacts, rest: Seq<u8>)
    requires
        facts_match(item, f),
        all_texts_fit(item),
    ensures
        item_parse(pre + stored_item(item, f) + rest, pre.len() as int) == Some(
            (read_back(item, f), (pre.len() + stored_item(item, f).len()) as int),
        ),
    decreases item, 1int, 0int,
{
    let id = item.server_id;
    let attrs = item_attr_bytes(item, f.count_type, f.moveable);
    let fin = stored_over(fresh_attrs(), item, f.count_type, f.moveable);
    assert(read_attrs_from(fin, Seq::<u8>::empty(), 0) == Some((fin, 0int)));
    assert(read_attrs_from(fin, seq![0u8], 0) == Some((fin, 1int)));
    law_attrs_read_back(fresh_attrs(), item, f.count_type, f.moveable, Seq::empty());
    law_attrs_read_back(fresh_attrs(), item, f.count_type, f.moveable, seq![0u8]);
    assert(attrs + Seq::<u8>::empty() =~= attrs);
    let n = item.children@.len() as int;
    let cont = f.is_container && n > 0;
    let kids = stored_children(item, f, n);
    let mid: Seq<u8> = if cont {
        seq![ATTR_CONTAINER_ITEMS] + le_bytes(n as nat, 4) + kids
    } else {
        Seq::empty()
    };
    assert(stored_item(item, f) == le_bytes(id as nat, 2) + attrs + mid + seq![0u8]);
    let head = pre + le_bytes(id as nat, 2);
    let tail = mid + seq![0u8] + rest;
    let d = pre + stored_item(item, f) + rest;
    assert(d =~= head + (attrs + tail));
    let t0 = fresh_tree(id);
    let t = ItemTree { attrs: fin, ..t0 };
    assert(item_parse(d, pre.len() as int) == attrs_loop(t0, d, head.len() as int)) by {
        lemma_byte_ranges();
        lemma_le_roundtrip(id as nat, 2);
        assert(d.subrange(pre.len() as int, pre.len() + 2int) =~= le_bytes(id as nat, 2));
    }
    assert(attrs_loop(t0, d, head.len() as int) == attrs_loop(t, d, (head.len() + attrs.len()) as int)) by {
        lemma_loop_through(d, head, attrs, tail, t0, fresh_attrs(), fin, 0);
        assert(ItemTree { attrs: fresh_attrs(), ..t0 } == t0);
    }
    let at = (head.len() + attrs.len()) as int;
    if cont {
        let pre2 = head + attrs + seq![ATTR_CONTAINER_ITEMS] + le_bytes(n as nat, 4);
        let end = (pre2.len() + kids.len()) as int;
        crate::net::le::lemma_le_bytes_len(n as nat, 4);
        assert(pre2.len() == at + 5);
        assert(d =~= pre2 + kids + (seq![0u8] + rest));
        assert(d.len() == end + 1 + rest.len());
        let t2 = ItemTree { children: read_back_children(item, f, n), ..t };
        assert(attrs_loop(t, d, at) == children_parse(t, d, at + 5, n as nat)) by {
            lemma_byte_ranges();
            lemma_le_roundtrip(n as nat, 4);
            assert(d[at] == ATTR_CONTAINER_ITEMS);
            assert(d.subrange(at + 1, at + 5) =~= le_bytes(n as nat, 4));
        }
        assert(children_parse(t, d, at + 5, n as nat) == children_parse(t2, d, end, 0)) by {
            lemma_children_read_back(pre2, item, f, n, seq![0u8] + rest, t);
            assert(t.children + read_back_children(item, f, n) =~= read_back_children(item, f, n));
            assert(ItemTree { children: t.children + read_back_children(item, f, n), ..t } == t2);
        }
        assert(d[end] == 0);
        assert(attrs_loop(t2, d, end) == Some((t2, end + 1)));
        assert(children_parse(t2, d, end, 0) == Some((t2, end + 1)));
        assert(t2 == read_back(item, f));
    } else {
        assert(attrs_loop(t, d, at) == Some((t, at + 1))) by {
            assert(d[at] == 0);
        }
        assert(t == read_back(item, f));
    }
}

} // verus!
