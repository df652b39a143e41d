//! What using an item does once no action script has taken the use: lie
//! down in a bed, open a container or a depot, read or write a text, or
//! climb a ladder or a hole.
use vstd::prelude::*;
use crate::map::Position;
use crate::map::grid::{
    GameMap, MapView, first_walkable, floor_change_destination, tile_at, upstairs_candidates,
};
use crate::map::reach::{can_teleport_to, teleport_allowed};

verus! {

/// What the rules on using an item look at besides the map.
#[derive(Debug, Clone, Copy, PartialEq, Eq)]
pub struct UseFacts {
    /// Whether the item type is a bed.
    pub is_bed: bool,
    /// Whether the item type is a container.
    pub is_container: bool,
    /// Whether the item type is a depot.
    pub is_depot: bool,
    /// Whether the item type has a text to read.
    pub can_read_text: bool,
    /// Whether the item type has a text to write.
    pub can_write_text: bool,
    /// Whether the item type is stackable.
    pub stackable: bool,
    /// Whether the item type is a fluid container or a splash.
    pub is_fluid: bool,
    /// Whether the item type changes floors.
    pub floor_change: bool,
    /// The item's count (for a fluid, its fluid kind).
    pub count: u16,
    /// The index of the item among the tile's items, or -1.
    pub item_index: i32,
    /// The number of the player's last text window.
    pub window_text_id: u32,
    /// Whether the player may not enter a protection zone.
    pub is_pz_locked: bool,
}

/// What is done with the use.
#[derive(Debug, Clone, Copy, PartialEq, Eq)]
pub enum UseAction {
    /// The bed is used.
    Bed,
    /// The depot `depot_id` opens.
    OpenDepot { depot_id: u32 },
    /// The container held at `child_index` in the open container
    /// `parent_cid` opens.
    OpenInsideContainer { parent_cid: u8, child_index: u8 },
    /// The container in the inventory slot `slot` opens.
    OpenInInventory { slot: u8 },
    /// The container at `item_index` among the tile's items opens.
    OpenOnTile { item_index: usize },
    /// A text window `window_text_id` opens, showing the count byte where
    /// there is one; `can_write` tells whether the text may be written.
    TextWindow { window_text_id: u32, count_byte: Option<u8>, can_write: bool },
    /// The player is moved to `to`.
    Teleport { to: Position },
    /// The player is told that it is not possible.
    Refused,
    /// Nothing happens.
    Nothing,
}

/// The client's fluid colour for each fluid kind (the count's lowest three
/// bits).
pub open spec fn fluid_color(k: int) -> u8 {
    if k == 1 {
        6
    } else if k == 2 {
        7
    } else if k == 3 {
        2
    } else if k == 4 {
        1
    } else if k == 5 {
        5
    } else if k == 6 {
        4
    } else if k == 7 {
        9
    } else {
        0
    }
}

/// The count byte a text window shows: the count between 1 and 255 for a
/// stackable item, the fluid colour for a fluid, none else.
pub open spec fn text_count_byte(f: UseFacts) -> Option<u8> {
    if f.stackable {
        Some(
            (if f.count < 1 {
                1
            } else if f.count > 255 {
                255
            } else {
                f.count
            }) as u8,
        )
    } else if f.is_fluid {
        Some(fluid_color(f.count as int % 8))
    } else {
        None
    }
}

/// The count byte a text window shows (see `text_count_byte`).
pub fn text_window_count(f: &UseFacts) -> (r: Option<u8>)
    ensures
        r == text_count_byte(*f),
{
    if f.stackable {
        let c: u16 = if f.count < 1 {
            1
        } else if f.count > 255 {
            255
        } else {
            f.count
        };
        Some(c as u8)
    } else if f.is_fluid {
        let colors: [u8; 8] = [0, 6, 7, 2, 1, 5, 4, 9];
        let k = (f.count % 8) as usize;
        Some(colors[k])
    } else {
        None
    }
}

/// Whether item `id` leads one floor up when used (a ladder).
pub open spec fn is_up_id(id: u16) -> bool {
    id == 1386 || id == 3678 || id == 5543
}

/// Whether item `id` leads one floor down when used.
pub open spec fn is_down_id(id: u16) -> bool {
    id == 430 || id == 1369
}

fn use_up_id(id: u16) -> (r: bool)
    ensures
        r == is_up_id(id),
{
    id == 1386 || id == 3678 || id == 5543
}

fn use_down_id(id: u16) -> (r: bool)
    ensures
        r == is_down_id(id),
{
    id == 430 || id == 1369
}

/// Where using item `server_id` at `pos` leads: one floor up for a ladder
/// (see `move_upstairs_position`), one floor down for a hole where there is
/// a tile below, and the floor-change destination for an item type that
/// changes floors; nothing else.
pub open spec fn use_destination(v: MapView, pos: Position, server_id: u16, floor_change: bool) -> Option<
    Position,
> {
    if is_up_id(server_id) {
        if pos.z == 0 {
            None
        } else {
            Some(first_walkable(v, upstairs_candidates(pos, (pos.z - 1) as u8), 0))
        }
    } else if is_down_id(server_id) {
        if pos.z == 255 {
            None
        } else {
            let below = Position { x: pos.x, y: pos.y, z: (pos.z + 1) as u8 };
            if tile_at(v, below) is Some {
                Some(below)
            } else {
                None
            }
        }
    } else if floor_change {
        floor_change_destination(v, pos)
    } else {
        None
    }
}

/// The depot id of the item at `index` among the tile's items at `pos`,
/// 0 where there is none.
pub open spec fn depot_id_at(v: MapView, pos: Position, index: int) -> u32 {
    match tile_at(v, pos) {
        Some(t) => if 0 <= index < t.items.len() {
            t.items[index].depot_id as u32
        } else {
            0
        },
        None => 0,
    }
}

/// What using item `server_id` at `pos` does: a bed is used; a container
/// opens, as a depot where it is one on the map, inside an open container,
/// in the inventory or on the tile; a readable item opens a text window;
/// else the player is moved where the use leads (see `use_destination`),
/// or told that it is not possible where he may not be put there.
pub open spec fn use_action(v: MapView, pos: Position, server_id: u16, f: UseFacts) -> UseAction {
    let index: int = if f.item_index >= 0 {
        f.item_index as int
    } else {
        0
    };
    if f.is_bed {
        UseAction::Bed
    } else if f.is_container {
        if f.is_depot && pos.x != 0xFFFF {
            UseAction::OpenDepot { depot_id: depot_id_at(v, pos, index) }
        } else if pos.x == 0xFFFF && pos.y & 0x40 != 0 {
            UseAction::OpenInsideContainer { parent_cid: (pos.y & 0x0F) as u8, child_index: pos.z }
        } else if pos.x == 0xFFFF {
            UseAction::OpenInInventory { slot: pos.y as u8 }
        } else {
            UseAction::OpenOnTile { item_index: index as usize }
        }
    } else if f.can_read_text {
        UseAction::TextWindow {
            window_text_id: if f.window_text_id == u32::MAX {
                0
            } else {
                (f.window_text_id + 1) as u32
            },
            count_byte: text_count_byte(f),
            can_write: f.can_write_text,
        }
    } else {
        match use_destination(v, pos, server_id, f.floor_change) {
            None => UseAction::Nothing,
            Some(to) => if teleport_allowed(v, to, f.is_pz_locked) {
                UseAction::Teleport { to }
            } else {
                UseAction::Refused
            },
        }
    }
}

/// Where using item `server_id` at `pos` leads (see `use_destination`).
pub fn use_teleport_destination(map: &GameMap, pos: Position, server_id: u16, floor_change: bool) -> (r:
    Option<Position>)
    ensures
        r == use_destination(map@, pos, server_id, floor_change),
{
    if use_up_id(server_id) {
        map.move_upstairs_position(pos)
    } else if use_down_id(server_id) {
        match pos.z.checked_add(1) {
            Some(z) => {
                let candidate = Position { x: pos.x, y: pos.y, z };
                match map.get_tile(candidate) {
                    Some(_) => Some(candidate),
                    None => None,
                }
            },
            None => None,
        }
    } else if floor_change {
        map.resolve_floor_change_destination(pos)
    } else {
        None
    }
}

/// The depot id of the item at `index` among the tile's items at `pos`
/// (see `depot_id_at`).
fn depot_id_on_tile(map: &GameMap, pos: Position, index: usize) -> (r: u32)
    ensures
        r == depot_id_at(map@, pos, index as int),
{
    match map.get_tile(pos) {
        Some(t) => match t.item_at(index) {
            Some(item) => item.depot_id as u32,
            None => 0,
        },
        None => 0,
    }
}

/// What using item `server_id` at `pos` does (see `use_action`).
pub fn decide_use_item(map: &GameMap, pos: Position, server_id: u16, f: &UseFacts) -> (r: UseAction)
    ensures
        r == use_action(map@, pos, server_id, *f),
{
    let index: usize = if f.item_index >= 0 {
        f.item_index as usize
    } else {
        0
    };
    if f.is_bed {
        UseAction::Bed
    } else if f.is_container {
        if f.is_depot && pos.x != 0xFFFF {
            UseAction::OpenDepot { depot_id: depot_id_on_tile(map, pos, index) }
        } else if pos.x == 0xFFFF && pos.y & 0x40 != 0 {
            UseAction::OpenInsideContainer { parent_cid: (pos.y & 0x0F) as u8, child_index: pos.z }
        } else if pos.x == 0xFFFF {
            UseAction::OpenInInventory { slot: pos.y as u8 }
        } else {
            UseAction::OpenOnTile { item_index: index }
        }
    } else if f.can_read_text {
        UseAction::TextWindow {
            window_text_id: f.window_text_id.wrapping_add(1),
            count_byte: text_window_count(f),
            can_write: f.can_write_text,
        }
    } else {
        match use_teleport_destination(map, pos, server_id, f.floor_change) {
            None => UseAction::Nothing,
            Some(to) => if can_teleport_to(map, to, f.is_pz_locked) {
                UseAction::Teleport { to }
            } else {
                UseAction::Refused
            },
        }
    }
}

} // verus!
