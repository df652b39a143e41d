//! Writing into a text window: whether the text a player sends is taken,
//! and what it does to the written item.
use vstd::prelude::*;
use crate::map::Position;
use crate::map::item_attrs::{text_of, utf8_lossy};
use crate::map::tile::MapItem;
use crate::net::moving::dist;
use crate::util::text::str_eq;

verus! {

/// What the rules on a written text look at.
#[derive(Debug, Clone, Copy, PartialEq, Eq)]
pub struct TextWriteFacts {
    /// The length in bytes of the text sent.
    pub text_len: usize,
    /// The longest text the item being written takes.
    pub max_write_len: u16,
    /// The window the text was written in.
    pub window_text_id: u32,
    /// The player's last text window.
    pub current_window_text_id: u32,
    /// The item the player opened for writing, if any.
    pub write_item_id: Option<u16>,
    /// Where that item is.
    pub write_item_pos: Option<Position>,
    pub player_pos: Position,
}

/// What comes of a written text.
#[derive(Debug, Clone, Copy, PartialEq, Eq)]
pub enum TextWriteCheck {
    /// Nothing happens.
    Ignore,
    /// The player is told that it is not possible.
    Refused,
    /// The text goes into the item at `pos`.
    Write { pos: Position },
}

/// What comes of a written text: nothing for a text too long or another
/// window; a refusal where no item was opened for writing, or the item lies
/// on the map out of the player's reach (not next to him on his floor);
/// else the text is written.
pub open spec fn text_write_check_of(f: TextWriteFacts) -> TextWriteCheck {
    if f.text_len > f.max_write_len || f.window_text_id != f.current_window_text_id {
        TextWriteCheck::Ignore
    } else if f.write_item_id is None {
        TextWriteCheck::Refused
    } else {
        match f.write_item_pos {
            None => TextWriteCheck::Refused,
            Some(p) => if p.x != 0xFFFF && (dist(p.x as int, f.player_pos.x as int) > 1 || dist(
                p.y as int,
                f.player_pos.y as int,
            ) > 1 || p.z != f.player_pos.z) {
                TextWriteCheck::Refused
            } else {
                TextWriteCheck::Write { pos: p }
            },
        }
    }
}

fn distance(a: u16, b: u16) -> (r: u16)
    ensures
        r == dist(a as int, b as int),
{
    if a >= b {
        a - b
    } else {
        b - a
    }
}

/// What comes of a written text (see `text_write_check_of`).
pub fn text_write_check(f: &TextWriteFacts) -> (r: TextWriteCheck)
    ensures
        r == text_write_check_of(*f),
{
    if f.text_len > f.max_write_len as usize || f.window_text_id != f.current_window_text_id {
        return TextWriteCheck::Ignore;
    }
    if f.write_item_id.is_none() {
        return TextWriteCheck::Refused;
    }
    match f.write_item_pos {
        None => TextWriteCheck::Refused,
        Some(p) => {
            if p.x != 0xFFFF && (distance(p.x, f.player_pos.x) > 1 || distance(p.y, f.player_pos.y)
                > 1 || p.z != f.player_pos.z) {
                TextWriteCheck::Refused
            } else {
                TextWriteCheck::Write { pos: p }
            }
        },
    }
}

/// Whether `b` is `a` with its text, writer, date and id changed as
/// writing `t` by `writer` at `now` changes them (see `write_item_text`).
pub open spec fn written(a: MapItem, b: MapItem, t: Seq<char>, writer: Seq<char>, now: u32, write_once: u16) -> bool {
    &&& if t.len() == 0 {
        b.text@.len() == 0 && b.written_by@.len() == 0 && b.written_date == 0
    } else if a.text@ != t {
        b.text@ == t && b.written_by@ == writer && b.written_date == now
    } else {
        b.text == a.text && b.written_by == a.written_by && b.written_date == a.written_date
    }
    &&& b.server_id == (if write_once != 0 {
        write_once
    } else {
        a.server_id
    })
    &&& b == MapItem {
        text: b.text,
        written_by: b.written_by,
        written_date: b.written_date,
        server_id: b.server_id,
        ..a
    }
}

/// Writes the text `new_text` (its bytes read as UTF-8, invalid ones
/// replaced, see `text_of`) into `item` as written by `writer` at `now`:
/// an empty text clears the text, writer and date; a changed text sets all
/// three; the same text changes none of them. Where the item type turns
/// into another once written (`write_once` not 0), the item takes that id.
pub fn write_item_text(item: &mut MapItem, new_text: &[u8], writer: &String, now: u32, write_once: u16)
    ensures
        written(*old(item), *final(item), text_of(new_text@), writer@, now, write_once),
{
    let text = utf8_lossy(new_text);
    if text.as_str().is_empty() {
        item.text = String::new();
        item.written_by = String::new();
        item.written_date = 0;
    } else if !str_eq(item.text.as_str(), text.as_str()) {
        item.text = text;
        item.written_by = writer.clone();
        item.written_date = now;
    }
    if write_once != 0 {
        item.server_id = write_once;
    }
}

} // verus!
