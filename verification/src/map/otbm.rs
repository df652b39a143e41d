//! The map file (OTBM): the versions a map file may have, the ways loading
//! one fails, and how its tile flags become tile states.
use vstd::prelude::*;
use crate::map::{Position, Town};
use crate::map::tile::{
    MapItem, TILESTATE_NOLOGOUT, TILESTATE_NOPVPZONE, TILESTATE_PROTECTIONZONE, TILESTATE_PVPZONE,
};
use crate::map::item_attrs::{
    ATTR_ACTION_ID, ATTR_ARMOR, ATTR_ARTICLE, ATTR_ATTACK, ATTR_CHARGES, ATTR_COUNT,
    ATTR_DECAYING_STATE, ATTR_DECAYTO, ATTR_DEFENSE, ATTR_DEPOT_ID, ATTR_DESC, ATTR_DURATION,
    ATTR_EXTRADEFENSE, ATTR_HITCHANCE, ATTR_HOUSEDOORID, ATTR_NAME, ATTR_PLURALNAME,
    ATTR_RUNE_CHARGES, ATTR_SHOOTRANGE, ATTR_SLEEPERGUID, ATTR_SLEEPSTART, ATTR_TELE_DEST,
    ATTR_TEXT, ATTR_UNIQUE_ID, ATTR_WEIGHT, ATTR_WRITTENBY, ATTR_WRITTENDATE, AttrsView,
    apply_attr, apply_item_attr, attrs_of, rd_str, rd_text_at, rd_u16, rd_u16_at, rd_u32,
    rd_u32_at, rd_u8, rd_u8_at,
};
use crate::map::serialize::{
    ItemTree, fresh_attrs, fresh_tree, lemma_trees_push, new_loaded_item, tree_of, trees_of,
};

verus! {

/// A tile flag of the map file: protection zone.
pub const OTBM_TILEFLAG_PROTECTIONZONE: u32 = 1;
/// A tile flag of the map file: no-PvP zone.
pub const OTBM_TILEFLAG_NOPVPZONE: u32 = 4;
/// A tile flag of the map file: no logging out.
pub const OTBM_TILEFLAG_NOLOGOUT: u32 = 8;
/// A tile flag of the map file: PvP zone.
pub const OTBM_TILEFLAG_PVPZONE: u32 = 16;

/// The oldest item list minor version a map file may need (client 8.10).
pub const CLIENT_VERSION_810: u32 = 8;

/// Why a map file could not be loaded.
#[derive(Debug, Clone, Copy, PartialEq, Eq)]
pub enum OtbmError {
    /// A node's properties end before a value that they should hold.
    Otb,
    MissingRootProperties,
    MissingMapDataNode,
    UnsupportedMapVersion(u32),
    UnsupportedItemMajorVersion(u32),
    UnsupportedItemMinorVersion(u32),
    InvalidMapDataAttributes,
    UnknownHeaderNode(u8),
    UnknownMapNode(u8),
    InvalidMapNode,
    UnknownTileNode(u8),
    CouldNotReadNodeData,
    UnknownTileAttribute { x: u16, y: u16, z: u8, attribute: u8 },
    UnknownNodeType { x: u16, y: u16, z: u8, node_type: u8 },
    UnknownTownNode(u8),
    CouldNotReadTownData,
    UnknownWaypointNode(u8),
    CouldNotReadWaypointData,
    InvalidItemNode,
    UnsupportedItemAttribute(u8),
    UnsupportedChildItemNode(u8),
}

/// The header of a map file: its version, its size, and the versions of
/// the item list it was made with.
#[derive(Debug, Clone, Copy, PartialEq, Eq)]
pub struct RootHeader {
    pub version: u32,
    pub width: u16,
    pub height: u16,
    pub major_version_items: u32,
    pub minor_version_items: u32,
}

/// Whether a map file with header `h` can be loaded with an item list of
/// major version `items_major`: map version 1 or 2, item list major
/// version from 3 up to the list's, minor version from 8.10 on.
pub open spec fn header_check(h: RootHeader, items_major: u32) -> Result<(), OtbmError> {
    if h.version == 0 || h.version > 2 {
        Err(OtbmError::UnsupportedMapVersion(h.version))
    } else if h.major_version_items < 3 || h.major_version_items > items_major {
        Err(OtbmError::UnsupportedItemMajorVersion(h.major_version_items))
    } else if h.minor_version_items < CLIENT_VERSION_810 {
        Err(OtbmError::UnsupportedItemMinorVersion(h.minor_version_items))
    } else {
        Ok(())
    }
}

/// Checks a map file's header against the item list's versions (see
/// `header_check`).
pub fn validate_root_header(header: RootHeader, items_major: u32) -> (r: Result<
    (),
    OtbmError,
>)
    ensures
        r == header_check(header, items_major),
{
    if header.version == 0 {
        return Err(OtbmError::UnsupportedMapVersion(header.version));
    }
    if header.version > 2 {
        return Err(OtbmError::UnsupportedMapVersion(header.version));
    }
    if header.major_version_items < 3 {
        return Err(OtbmError::UnsupportedItemMajorVersion(header.major_version_items));
    }
    if header.major_version_items > items_major {
        return Err(OtbmError::UnsupportedItemMajorVersion(header.major_version_items));
    }
    if header.minor_version_items < CLIENT_VERSION_810 {
        return Err(OtbmError::UnsupportedItemMinorVersion(header.minor_version_items));
    }
    Ok(())
}

/// The tile states of a map file's tile flags: at most one zone (a
/// protection zone before a no-PvP zone before a PvP zone), and no logging
/// out.
pub open spec fn tile_states_of(flags: u32) -> u32 {
    let zone: u32 = if flags & OTBM_TILEFLAG_PROTECTIONZONE != 0 {
        TILESTATE_PROTECTIONZONE
    } else if flags & OTBM_TILEFLAG_NOPVPZONE != 0 {
        TILESTATE_NOPVPZONE
    } else if flags & OTBM_TILEFLAG_PVPZONE != 0 {
        TILESTATE_PVPZONE
    } else {
        0
    };
    if flags & OTBM_TILEFLAG_NOLOGOUT != 0 {
        zone | TILESTATE_NOLOGOUT
    } else {
        zone
    }
}

/// The tile states of a map file's tile flags (see `tile_states_of`).
pub fn map_tile_flags(flags: u32) -> (r: u32)
    ensures
        r == tile_states_of(flags),
{
    let zone: u32 = if flags & OTBM_TILEFLAG_PROTECTIONZONE != 0 {
        TILESTATE_PROTECTIONZONE
    } else if flags & OTBM_TILEFLAG_NOPVPZONE != 0 {
        TILESTATE_NOPVPZONE
    } else if flags & OTBM_TILEFLAG_PVPZONE != 0 {
        TILESTATE_PVPZONE
    } else {
        0
    };
    if flags & OTBM_TILEFLAG_NOLOGOUT != 0 {
        zone | TILESTATE_NOLOGOUT
    } else {
        zone
    }
}

/// The zone a map file's tile flags give a tile: a protection-zone flag
/// makes a protection zone and no other zone; without it a no-PvP flag
/// makes a no-PvP zone and no other; without both a PvP flag makes a PvP
/// zone; with none of them the tile has no zone. The no-logout flag, and
/// only it, forbids logging out, whatever the zone.
pub proof fn law_tile_flag_zones(flags: u32)
    ensures
        flags & OTBM_TILEFLAG_PROTECTIONZONE != 0 ==> tile_states_of(flags) & TILESTATE_PROTECTIONZONE
            != 0 && tile_states_of(flags) & TILESTATE_NOPVPZONE == 0 && tile_states_of(flags)
            & TILESTATE_PVPZONE == 0,
        flags & OTBM_TILEFLAG_PROTECTIONZONE == 0 && flags & OTBM_TILEFLAG_NOPVPZONE != 0
            ==> tile_states_of(flags) & TILESTATE_NOPVPZONE != 0 && tile_states_of(flags)
            & TILESTATE_PROTECTIONZONE == 0 && tile_states_of(flags) & TILESTATE_PVPZONE == 0,
        flags & OTBM_TILEFLAG_PROTECTIONZONE == 0 && flags & OTBM_TILEFLAG_NOPVPZONE == 0 && flags
            & OTBM_TILEFLAG_PVPZONE != 0 ==> tile_states_of(flags) & TILESTATE_PVPZONE != 0
            && tile_states_of(flags) & TILESTATE_PROTECTIONZONE == 0 && tile_states_of(flags)
            & TILESTATE_NOPVPZONE == 0,
        flags & OTBM_TILEFLAG_PROTECTIONZONE == 0 && flags & OTBM_TILEFLAG_NOPVPZONE == 0 && flags
            & OTBM_TILEFLAG_PVPZONE == 0 ==> tile_states_of(flags) & TILESTATE_PROTECTIONZONE == 0
            && tile_states_of(flags) & TILESTATE_NOPVPZONE == 0 && tile_states_of(flags)
            & TILESTATE_PVPZONE == 0,
        (flags & OTBM_TILEFLAG_NOLOGOUT != 0) == (tile_states_of(flags) & TILESTATE_NOLOGOUT != 0),
        tile_states_of(flags) & !(TILESTATE_PROTECTIONZONE | TILESTATE_NOPVPZONE | TILESTATE_PVPZONE
            | TILESTATE_NOLOGOUT) == 0,
{
    let s = tile_states_of(flags);
    assert(flags & 1 != 0 ==> s & 0x80 != 0 && s & 0x100 == 0 && s & 0x400 == 0) by (bit_vector)
        requires
            s == tile_states_of(flags),
    ;
    assert(flags & 1 == 0 && flags & 4 != 0 ==> s & 0x100 != 0 && s & 0x80 == 0 && s & 0x400 == 0)
        by (bit_vector)
        requires
            s == tile_states_of(flags),
    ;
    assert(flags & 1 == 0 && flags & 4 == 0 && flags & 16 != 0 ==> s & 0x400 != 0 && s & 0x80 == 0 && s
        & 0x100 == 0) by (bit_vector)
        requires
            s == tile_states_of(flags),
    ;
    assert(flags & 1 == 0 && flags & 4 == 0 && flags & 16 == 0 ==> s & 0x80 == 0 && s & 0x100 == 0 && s
        & 0x400 == 0) by (bit_vector)
        requires
            s == tile_states_of(flags),
    ;
    assert((flags & 8 != 0) == (s & 0x200 != 0)) by (bit_vector)
        requires
            s == tile_states_of(flags),
    ;
    assert(s & !(0x80u32 | 0x100u32 | 0x400u32 | 0x200u32) == 0) by (bit_vector)
        requires
            s == tile_states_of(flags),
    ;
}

/// Node type: the map data under the root.
pub const OTBM_MAP_DATA: u8 = 2;
/// Node type: an area of tiles.
pub const OTBM_TILE_AREA: u8 = 4;
/// Node type: a tile.
pub const OTBM_TILE: u8 = 5;
/// Node type: an item.
pub const OTBM_ITEM: u8 = 6;
/// Node type: the list of towns.
pub const OTBM_TOWNS: u8 = 12;
/// Node type: a town.
pub const OTBM_TOWN: u8 = 13;
/// Node type: a tile of a house.
pub const OTBM_HOUSETILE: u8 = 14;
/// Node type: the list of waypoints.
pub const OTBM_WAYPOINTS: u8 = 15;
/// Node type: a waypoint.
pub const OTBM_WAYPOINT: u8 = 16;

/// Map data attribute: the description.
pub const OTBM_ATTR_DESCRIPTION: u8 = 1;
/// Tile attribute: tile flags.
pub const OTBM_ATTR_TILE_FLAGS: u8 = 3;
/// Tile attribute: an item given by its id alone.
pub const OTBM_ATTR_ITEM: u8 = 9;
/// Map data attribute: the spawns file.
pub const OTBM_ATTR_EXT_SPAWN_FILE: u8 = 11;
/// Map data attribute: the houses file.
pub const OTBM_ATTR_EXT_HOUSE_FILE: u8 = 13;

/// A node of a map file's tree: its type, its property bytes (none where
/// the node has no property data), and its child nodes in order.
#[derive(Debug)]
pub struct OtbNode {
    pub node_type: u8,
    pub props: Option<Vec<u8>>,
    pub children: Vec<OtbNode>,
}

/// Whether `tag` is an item attribute that an item node may hold.
pub open spec fn known_item_attr(tag: u8) -> bool {
    tag == ATTR_COUNT || tag == ATTR_RUNE_CHARGES || tag == ATTR_ACTION_ID || tag == ATTR_UNIQUE_ID
        || tag == ATTR_TEXT || tag == ATTR_DESC || tag == ATTR_TELE_DEST || tag == ATTR_DEPOT_ID
        || tag == ATTR_HOUSEDOORID || tag == ATTR_DURATION || tag == ATTR_DECAYING_STATE || tag
        == ATTR_WRITTENDATE || tag == ATTR_WRITTENBY || tag == ATTR_SLEEPERGUID || tag
        == ATTR_SLEEPSTART || tag == ATTR_CHARGES || tag == ATTR_NAME || tag == ATTR_ARTICLE || tag
        == ATTR_PLURALNAME || tag == ATTR_WEIGHT || tag == ATTR_ATTACK || tag == ATTR_DEFENSE || tag
        == ATTR_EXTRADEFENSE || tag == ATTR_ARMOR || tag == ATTR_HITCHANCE || tag == ATTR_SHOOTRANGE
        || tag == ATTR_DECAYTO
}

fn is_known_item_attr(tag: u8) -> (r: bool)
    ensures
        r == known_item_attr(tag),
{
    tag == ATTR_COUNT || tag == ATTR_RUNE_CHARGES || tag == ATTR_ACTION_ID || tag == ATTR_UNIQUE_ID
        || tag == ATTR_TEXT || tag == ATTR_DESC || tag == ATTR_TELE_DEST || tag == ATTR_DEPOT_ID
        || tag == ATTR_HOUSEDOORID || tag == ATTR_DURATION || tag == ATTR_DECAYING_STATE || tag
        == ATTR_WRITTENDATE || tag == ATTR_WRITTENBY || tag == ATTR_SLEEPERGUID || tag
        == ATTR_SLEEPSTART || tag == ATTR_CHARGES || tag == ATTR_NAME || tag == ATTR_ARTICLE || tag
        == ATTR_PLURALNAME || tag == ATTR_WEIGHT || tag == ATTR_ATTACK || tag == ATTR_DEFENSE || tag
        == ATTR_EXTRADEFENSE || tag == ATTR_ARMOR || tag == ATTR_HITCHANCE || tag == ATTR_SHOOTRANGE
        || tag == ATTR_DECAYTO
}

/// The attributes of an item node read from `p` on: tag after tag, each
/// followed by its value, until a zero tag or the end of the properties.
pub open spec fn node_attrs_from(a: AttrsView, d: Seq<u8>, p: int) -> Result<AttrsView, OtbmError>
    decreases d.len() - p,
{
    if p < 0 || p >= d.len() || d[p] == 0 {
        Ok(a)
    } else if !known_item_attr(d[p]) {
        Err(OtbmError::UnsupportedItemAttribute(d[p]))
    } else {
        match apply_attr(a, d[p], d, p + 1) {
            Some((a2, q)) => if p < q <= d.len() {
                node_attrs_from(a2, d, q)
            } else {
                Err(OtbmError::Otb)
            },
            None => Err(OtbmError::Otb),
        }
    }
}

/// The item that an item node gives: its id (the first two property
/// bytes), a count of one, its attributes, marked as loaded from the map,
/// and the items of its child nodes in order, each of which must be an
/// item node.
pub open spec fn node_item(n: OtbNode) -> Result<ItemTree, OtbmError>
    decreases n,
{
    match n.props {
        None => Err(OtbmError::InvalidItemNode),
        Some(v) => match rd_u16_at(v@, 0) {
            None => Err(OtbmError::Otb),
            Some((id, q)) => match node_attrs_from(fresh_attrs(), v@, q) {
                Err(e) => Err(e),
                Ok(a) => match node_items(n.children@) {
                    Err(e) => Err(e),
                    Ok(cs) => Ok(
                        ItemTree { attrs: a, loaded_from_map: true, children: cs, ..fresh_tree(id) },
                    ),
                },
            },
        },
    }
}

/// The items of the child nodes `s` of an item node, in order; the first
/// failure where there is one.
pub open spec fn node_items(s: Seq<OtbNode>) -> Result<Seq<ItemTree>, OtbmError>
    decreases s,
{
    if s.len() == 0 {
        Ok(Seq::empty())
    } else {
        match node_items(s.subrange(0, s.len() - 1)) {
            Err(e) => Err(e),
            Ok(ts) => {
                let c = s[s.len() - 1];
                if c.node_type != OTBM_ITEM {
                    Err(OtbmError::UnsupportedChildItemNode(c.node_type))
                } else {
                    match node_item(c) {
                        Err(e) => Err(e),
                        Ok(t) => Ok(ts.push(t)),
                    }
                }
            },
        }
    }
}

proof fn lemma_node_items_prefix_err(s: Seq<OtbNode>, k: int)
    requires
        0 <= k <= s.len(),
        node_items(s.subrange(0, k)) is Err,
    ensures
        node_items(s) == node_items(s.subrange(0, k)),
    decreases s.len() - k,
{
    if k < s.len() {
        let s1 = s.subrange(0, k + 1);
        assert(s1.subrange(0, s1.len() - 1) =~= s.subrange(0, k));
        assert(node_items(s1) == node_items(s.subrange(0, k)));
        lemma_node_items_prefix_err(s, k + 1);
    } else {
        assert(s.subrange(0, k) =~= s);
    }
}

/// Reads the item that item node `node` gives (see `node_item`).
pub fn item_from_node(node: &OtbNode) -> (r: Result<MapItem, OtbmError>)
    ensures
        match node_item(*node) {
            Ok(t) => r matches Ok(item) && tree_of(item) == t,
            Err(e) => r == Err::<MapItem, OtbmError>(e),
        },
    decreases node,
{
    let data: &[u8] = match &node.props {
        None => {
            return Err(OtbmError::InvalidItemNode);
        },
        Some(p) => p.as_slice(),
    };
    let mut pos: usize = 0;
    let id = match rd_u16(data, &mut pos) {
        None => {
            return Err(OtbmError::Otb);
        },
        Some(v) => v,
    };
    let mut item = new_loaded_item(id);
    item.loaded_from_map = true;
    let ghost q0 = pos as int;
    while pos < data.len()
        invariant
            node.props is Some,
            data@ == node.props->0@,
            rd_u16_at(data@, 0) == Some((id, q0)),
            node_attrs_from(fresh_attrs(), data@, q0) == node_attrs_from(
                attrs_of(item),
                data@,
                pos as int,
            ),
            item.server_id == id,
            item.loaded_from_map,
            item.fluid_type == 0,
            item.owner_id == 0,
            item.custom_attributes@ == Map::<String, crate::map::tile::CustomAttributeValue>::empty(),
            trees_of(item.children@) == Seq::<ItemTree>::empty(),
        ensures
            node_attrs_from(fresh_attrs(), data@, q0) == Ok::<AttrsView, OtbmError>(attrs_of(item)),
            item.server_id == id,
            item.loaded_from_map,
            item.fluid_type == 0,
            item.owner_id == 0,
            item.custom_attributes@ == Map::<String, crate::map::tile::CustomAttributeValue>::empty(),
            trees_of(item.children@) == Seq::<ItemTree>::empty(),
        decreases data.len() - pos,
    {
        let tag = data[pos];
        if tag == 0 {
            break;
        }
        if !is_known_item_attr(tag) {
            return Err(OtbmError::UnsupportedItemAttribute(tag));
        }
        pos = pos + 1;
        match apply_item_attr(&mut item, tag, data, &mut pos) {
            Some(()) => {},
            None => {
                return Err(OtbmError::Otb);
            },
        }
    }
    let ghost attrs = attrs_of(item);
    let mut i: usize = 0;
    while i < node.children.len()
        invariant
            node.props is Some,
            rd_u16_at(node.props->0@, 0) == Some((id, q0)),
            node_attrs_from(fresh_attrs(), node.props->0@, q0) == Ok::<AttrsView, OtbmError>(attrs),
            i <= node.children@.len(),
            node_items(node.children@.subrange(0, i as int)) == Ok::<Seq<ItemTree>, OtbmError>(
                trees_of(item.children@),
            ),
            attrs_of(item) == attrs,
            item.server_id == id,
            item.loaded_from_map,
            item.fluid_type == 0,
            item.owner_id == 0,
            item.custom_attributes@ == Map::<String, crate::map::tile::CustomAttributeValue>::empty(),
        decreases node.children.len() - i,
    {
        let child = &node.children[i];
        let ghost pre = node.children@.subrange(0, i as int);
        let ghost s1 = node.children@.subrange(0, i + 1);
        proof {
            assert(s1.subrange(0, s1.len() - 1) =~= pre);
            assert(s1[s1.len() - 1] == node.children@[i as int]);
        }
        if child.node_type != OTBM_ITEM {
            proof {
                lemma_node_items_prefix_err(node.children@, i + 1);
            }
            return Err(OtbmError::UnsupportedChildItemNode(child.node_type));
        }
        proof {
            assert(decreases_to!(*node => node.children@[i as int]));
        }
        let c = match item_from_node(child) {
            Ok(c) => c,
            Err(e) => {
                proof {
                    lemma_node_items_prefix_err(node.children@, i + 1);
                }
                return Err(e);
            },
        };
        proof {
            lemma_trees_push(item.children@, c);
        }
        item.children.push(c);
        i = i + 1;
    }
    proof {
        assert(node.children@.subrange(0, node.children@.len() as int) =~= node.children@);
        assert(tree_of(item) == ItemTree {
            attrs: attrs,
            loaded_from_map: true,
            children: trees_of(item.children@),
            ..fresh_tree(id)
        });
    }
    Ok(item)
}

/// What each node of `s` gives under `f`, in order; the first failure
/// where there is one.
pub open spec fn each_node<T>(s: Seq<OtbNode>, f: spec_fn(OtbNode) -> Result<T, OtbmError>) -> Result<
    Seq<T>,
    OtbmError,
>
    decreases s.len(),
{
    if s.len() == 0 {
        Ok(Seq::empty())
    } else {
        match each_node(s.subrange(0, s.len() - 1), f) {
            Err(e) => Err(e),
            Ok(ts) => match f(s[s.len() - 1]) {
                Err(e) => Err(e),
                Ok(t) => Ok(ts.push(t)),
            },
        }
    }
}

proof fn lemma_each_node_step<T>(
    s: Seq<OtbNode>,
    f: spec_fn(OtbNode) -> Result<T, OtbmError>,
    i: int,
)
    requires
        0 <= i < s.len(),
    ensures
        each_node(s.subrange(0, i + 1), f) == match each_node(s.subrange(0, i), f) {
            Err(e) => Err(e),
            Ok(ts) => match f(s[i]) {
                Err(e) => Err(e),
                Ok(t) => Ok(ts.push(t)),
            },
        },
{
    let s1 = s.subrange(0, i + 1);
    assert(s1.subrange(0, s1.len() - 1) =~= s.subrange(0, i));
    assert(s1[s1.len() - 1] == s[i]);
}

proof fn lemma_each_node_prefix_err<T>(
    s: Seq<OtbNode>,
    f: spec_fn(OtbNode) -> Result<T, OtbmError>,
    k: int,
)
    requires
        0 <= k <= s.len(),
        each_node(s.subrange(0, k), f) is Err,
    ensures
        each_node(s, f) == each_node(s.subrange(0, k), f),
    decreases s.len() - k,
{
    if k < s.len() {
        lemma_each_node_step(s, f, k);
        lemma_each_node_prefix_err(s, f, k + 1);
    } else {
        assert(s.subrange(0, k) =~= s);
    }
}

proof fn lemma_each_node_all<T>(s: Seq<OtbNode>, f: spec_fn(OtbNode) -> Result<T, OtbmError>)
    ensures
        each_node(s, f) == each_node(s.subrange(0, s.len() as int), f),
{
    assert(s.subrange(0, s.len() as int) =~= s);
}

/// The position at `p` (two-byte x, two-byte y, one-byte floor), and the
/// position after it.
pub open spec fn rd_pos_at(d: Seq<u8>, p: int) -> Option<(Position, int)> {
    match rd_u16_at(d, p) {
        Some((x, q1)) => match rd_u16_at(d, q1) {
            Some((y, q2)) => match rd_u8_at(d, q2) {
                Some((z, q3)) => Some((Position { x, y, z }, q3)),
                None => None,
            },
            None => None,
        },
        None => None,
    }
}

fn rd_pos(data: &[u8], pos: &mut usize) -> (r: Option<Position>)
    ensures
        match rd_pos_at(data@, *old(pos) as int) {
            Some((v, q)) => r == Some(v) && *final(pos) == q,
            None => r is None,
        },
{
    let x = rd_u16(data, pos)?;
    let y = rd_u16(data, pos)?;
    let z = rd_u8(data, pos)?;
    Some(Position { x, y, z })
}

/// A town as a towns list gives it: its id, name and temple position.
pub type TownRecord = (u32, Seq<char>, Position);

/// The town that a town node gives: its id, name and temple position.
pub open spec fn town_record(n: OtbNode) -> Result<TownRecord, OtbmError> {
    if n.node_type != OTBM_TOWN {
        Err(OtbmError::UnknownTownNode(n.node_type))
    } else {
        match n.props {
            None => Err(OtbmError::CouldNotReadTownData),
            Some(v) => match rd_u32_at(v@, 0) {
                None => Err(OtbmError::Otb),
                Some((id, q1)) => match rd_text_at(v@, q1) {
                    None => Err(OtbmError::Otb),
                    Some((name, q2)) => match rd_pos_at(v@, q2) {
                        None => Err(OtbmError::Otb),
                        Some((temple, _)) => Ok((id, name, temple)),
                    },
                },
            },
        }
    }
}

/// The towns of the child nodes `s` of a towns list, in order.
pub open spec fn town_records(s: Seq<OtbNode>) -> Result<Seq<TownRecord>, OtbmError> {
    each_node(s, |n: OtbNode| town_record(n))
}

/// Whether `t` is the town `v`.
pub open spec fn town_is(t: Town, v: TownRecord) -> bool {
    t.id == v.0 && t.name@ == v.1 && t.temple_pos == v.2
}

/// Whether `ts` are the towns `vs`, in order.
pub open spec fn towns_are(ts: Seq<Town>, vs: Seq<TownRecord>) -> bool {
    ts.len() == vs.len() && forall|i: int| 0 <= i < ts.len() ==> town_is(#[trigger] ts[i], vs[i])
}

fn town_from_node(n: &OtbNode) -> (r: Result<Town, OtbmError>)
    ensures
        match town_record(*n) {
            Ok(v) => r matches Ok(t) && town_is(t, v),
            Err(e) => r == Err::<Town, OtbmError>(e),
        },
{
    if n.node_type != OTBM_TOWN {
        return Err(OtbmError::UnknownTownNode(n.node_type));
    }
    let data: &[u8] = match &n.props {
        None => {
            return Err(OtbmError::CouldNotReadTownData);
        },
        Some(p) => p.as_slice(),
    };
    let mut pos: usize = 0;
    let id = match rd_u32(data, &mut pos) {
        None => {
            return Err(OtbmError::Otb);
        },
        Some(v) => v,
    };
    let name = match rd_str(data, &mut pos) {
        None => {
            return Err(OtbmError::Otb);
        },
        Some(v) => v,
    };
    let temple_pos = match rd_pos(data, &mut pos) {
        None => {
            return Err(OtbmError::Otb);
        },
        Some(v) => v,
    };
    Ok(Town { id, name, temple_pos })
}

/// Reads the towns of towns list `node` onto the end of `towns`.
fn push_towns(node: &OtbNode, towns: &mut Vec<Town>, Ghost(acc): Ghost<Seq<TownRecord>>) -> (r: Result<
    (),
    OtbmError,
>)
    requires
        towns_are(old(towns)@, acc),
    ensures
        match town_records(node.children@) {
            Ok(vs) => r is Ok && towns_are(final(towns)@, acc + vs),
            Err(e) => r == Err::<(), OtbmError>(e),
        },
{
    let ghost f = |n: OtbNode| town_record(n);
    let mut i: usize = 0;
    while i < node.children.len()
        invariant
            f == (|n: OtbNode| town_record(n)),
            i <= node.children@.len(),
            each_node(node.children@.subrange(0, i as int), f) matches Ok(vs) && towns_are(
                towns@,
                acc + vs,
            ),
        decreases node.children.len() - i,
    {
        proof {
            lemma_each_node_step(node.children@, f, i as int);
        }
        match town_from_node(&node.children[i]) {
            Ok(t) => {
                let ghost vs = each_node(node.children@.subrange(0, i as int), f)->Ok_0;
                towns.push(t);
                proof {
                    let v = town_record(node.children@[i as int])->Ok_0;
                    assert((acc + vs).push(v) =~= acc + vs.push(v));
                    assert(towns_are(towns@, acc + vs.push(v)));
                }
            },
            Err(e) => {
                proof {
                    lemma_each_node_prefix_err(node.children@, f, i + 1);
                }
                return Err(e);
            },
        }
        i = i + 1;
    }
    proof {
        lemma_each_node_all(node.children@, f);
    }
    Ok(())
}

/// A waypoint as a waypoints list gives it: its name and position.
pub type WaypointRecord = (Seq<char>, Position);

/// The waypoint that a waypoint node gives: its name and position.
pub open spec fn waypoint_record(n: OtbNode) -> Result<WaypointRecord, OtbmError> {
    if n.node_type != OTBM_WAYPOINT {
        Err(OtbmError::UnknownWaypointNode(n.node_type))
    } else {
        match n.props {
            None => Err(OtbmError::CouldNotReadWaypointData),
            Some(v) => match rd_text_at(v@, 0) {
                None => Err(OtbmError::Otb),
                Some((name, q)) => match rd_pos_at(v@, q) {
                    None => Err(OtbmError::Otb),
                    Some((at, _)) => Ok((name, at)),
                },
            },
        }
    }
}

/// The waypoints of the child nodes `s` of a waypoints list, in order.
pub open spec fn waypoint_records(s: Seq<OtbNode>) -> Result<Seq<WaypointRecord>, OtbmError> {
    each_node(s, |n: OtbNode| waypoint_record(n))
}

/// Whether `ws` are the waypoints `vs`, in order.
pub open spec fn waypoints_are(ws: Seq<(String, Position)>, vs: Seq<WaypointRecord>) -> bool {
    ws.len() == vs.len() && forall|i: int|
        0 <= i < ws.len() ==> (#[trigger] ws[i]).0@ == vs[i].0 && ws[i].1 == vs[i].1
}

fn waypoint_from_node(n: &OtbNode) -> (r: Result<(String, Position), OtbmError>)
    ensures
        match waypoint_record(*n) {
            Ok(v) => r matches Ok(w) && w.0@ == v.0 && w.1 == v.1,
            Err(e) => r == Err::<(String, Position), OtbmError>(e),
        },
{
    if n.node_type != OTBM_WAYPOINT {
        return Err(OtbmError::UnknownWaypointNode(n.node_type));
    }
    let data: &[u8] = match &n.props {
        None => {
            return Err(OtbmError::CouldNotReadWaypointData);
        },
        Some(p) => p.as_slice(),
    };
    let mut pos: usize = 0;
    let name = match rd_str(data, &mut pos) {
        None => {
            return Err(OtbmError::Otb);
        },
        Some(v) => v,
    };
    let at = match rd_pos(data, &mut pos) {
        None => {
            return Err(OtbmError::Otb);
        },
        Some(v) => v,
    };
    Ok((name, at))
}

/// Reads the waypoints of waypoints list `node` onto the end of
/// `waypoints`.
fn push_waypoints(
    node: &OtbNode,
    waypoints: &mut Vec<(String, Position)>,
    Ghost(acc): Ghost<Seq<WaypointRecord>>,
) -> (r: Result<(), OtbmError>)
    requires
        waypoints_are(old(waypoints)@, acc),
    ensures
        match waypoint_records(node.children@) {
            Ok(vs) => r is Ok && waypoints_are(final(waypoints)@, acc + vs),
            Err(e) => r == Err::<(), OtbmError>(e),
        },
{
    let ghost f = |n: OtbNode| waypoint_record(n);
    let mut i: usize = 0;
    while i < node.children.len()
        invariant
            f == (|n: OtbNode| waypoint_record(n)),
            i <= node.children@.len(),
            each_node(node.children@.subrange(0, i as int), f) matches Ok(vs) && waypoints_are(
                waypoints@,
                acc + vs,
            ),
        decreases node.children.len() - i,
    {
        proof {
            lemma_each_node_step(node.children@, f, i as int);
        }
        match waypoint_from_node(&node.children[i]) {
            Ok(w) => {
                let ghost vs = each_node(node.children@.subrange(0, i as int), f)->Ok_0;
                waypoints.push(w);
                proof {
                    let v = waypoint_record(node.children@[i as int])->Ok_0;
                    assert((acc + vs).push(v) =~= acc + vs.push(v));
                    assert(waypoints_are(waypoints@, acc + vs.push(v)));
                }
            },
            Err(e) => {
                proof {
                    lemma_each_node_prefix_err(node.children@, f, i + 1);
                }
                return Err(e);
            },
        }
        i = i + 1;
    }
    proof {
        lemma_each_node_all(node.children@, f);
    }
    Ok(())
}

/// A tile as a tile area gives it: its position, the house it belongs to,
/// its tile states, and its items in file order (those its attributes name
/// by id, then those of its child nodes).
pub ghost struct TileRecordView {
    pub position: Position,
    pub house_id: Option<u32>,
    pub flags: u32,
    pub items: Seq<ItemTree>,
}

/// A tile as a tile area gives it (see `TileRecordView`).
#[derive(Debug)]
pub struct TileRecord {
    pub position: Position,
    pub house_id: Option<u32>,
    pub flags: u32,
    pub items: Vec<MapItem>,
}

/// Whether `t` is the tile `v`.
pub open spec fn tile_is(t: TileRecord, v: TileRecordView) -> bool {
    t.position == v.position && t.house_id == v.house_id && t.flags == v.flags && trees_of(t.items@)
        == v.items
}

/// Whether `ts` are the tiles `vs`, in order.
pub open spec fn tiles_are(ts: Seq<TileRecord>, vs: Seq<TileRecordView>) -> bool {
    ts.len() == vs.len() && forall|i: int| 0 <= i < ts.len() ==> tile_is(#[trigger] ts[i], vs[i])
}

/// The item that a tile's item attribute names by id: a count of one,
/// marked as loaded from the map.
pub open spec fn direct_item(id: u16) -> ItemTree {
    ItemTree { loaded_from_map: true, ..fresh_tree(id) }
}

/// A tile's states and items after reading its attributes from `p` on:
/// tile flags (their tile states added) and items named by id, until the
/// end of the properties; any other attribute is refused.
pub open spec fn tile_attrs_from(flags: u32, items: Seq<ItemTree>, at: Position, d: Seq<u8>, p: int) -> Result<
    (u32, Seq<ItemTree>),
    OtbmError,
>
    decreases d.len() - p,
{
    if p < 0 || p >= d.len() {
        Ok((flags, items))
    } else if d[p] == OTBM_ATTR_TILE_FLAGS {
        match rd_u32_at(d, p + 1) {
            Some((v, q)) => tile_attrs_from(flags | tile_states_of(v), items, at, d, q),
            None => Err(OtbmError::Otb),
        }
    } else if d[p] == OTBM_ATTR_ITEM {
        match rd_u16_at(d, p + 1) {
            Some((id, q)) => tile_attrs_from(flags, items.push(direct_item(id)), at, d, q),
            None => Err(OtbmError::Otb),
        }
    } else {
        Err(OtbmError::UnknownTileAttribute { x: at.x, y: at.y, z: at.z, attribute: d[p] })
    }
}

/// The item of a tile's child node at `at`, which must be an item node.
pub open spec fn tile_child(at: Position, c: OtbNode) -> Result<ItemTree, OtbmError> {
    if c.node_type != OTBM_ITEM {
        Err(OtbmError::UnknownNodeType { x: at.x, y: at.y, z: at.z, node_type: c.node_type })
    } else {
        node_item(c)
    }
}

/// The items of the child nodes `s` of the tile at `at`, in order.
pub open spec fn tile_children(at: Position, s: Seq<OtbNode>) -> Result<Seq<ItemTree>, OtbmError> {
    each_node(s, |c: OtbNode| tile_child(at, c))
}

/// The rest of a tile at `at` of house `house`, its attributes starting
/// at `q` of its properties `d`.
pub open spec fn tile_body(at: Position, house: Option<u32>, n: OtbNode, d: Seq<u8>, q: int) -> Result<
    TileRecordView,
    OtbmError,
> {
    match tile_attrs_from(0, Seq::empty(), at, d, q) {
        Err(e) => Err(e),
        Ok((flags, items)) => match tile_children(at, n.children@) {
            Err(e) => Err(e),
            Ok(cs) => Ok(TileRecordView { position: at, house_id: house, flags, items: items + cs }),
        },
    }
}

/// The tile that tile node `n` of the area at `area` gives: its offset in
/// the area (two bytes), for a house tile the house id, then its
/// attributes and its child item nodes.
pub open spec fn tile_record(area: Position, n: OtbNode) -> Result<TileRecordView, OtbmError> {
    if n.node_type != OTBM_TILE && n.node_type != OTBM_HOUSETILE {
        Err(OtbmError::UnknownTileNode(n.node_type))
    } else {
        match n.props {
            None => Err(OtbmError::CouldNotReadNodeData),
            Some(v) => match rd_u8_at(v@, 0) {
                None => Err(OtbmError::Otb),
                Some((dx, _)) => match rd_u8_at(v@, 1) {
                    None => Err(OtbmError::Otb),
                    Some((dy, _)) => {
                        let at = Position {
                            x: (area.x + dx) as u16,
                            y: (area.y + dy) as u16,
                            z: area.z,
                        };
                        if n.node_type == OTBM_HOUSETILE {
                            match rd_u32_at(v@, 2) {
                                None => Err(OtbmError::Otb),
                                Some((h, q)) => tile_body(at, Some(h), n, v@, q),
                            }
                        } else {
                            tile_body(at, None, n, v@, 2)
                        }
                    },
                },
            },
        }
    }
}

/// Whether the position of tile node `t` in the area at `area` fits the
/// coordinates.
pub open spec fn tile_fits(area: Position, t: OtbNode) -> bool {
    (t.node_type == OTBM_TILE || t.node_type == OTBM_HOUSETILE) ==> match t.props {
        Some(v) => v@.len() >= 2 ==> area.x + v@[0] <= u16::MAX && area.y + v@[1] <= u16::MAX,
        None => true,
    }
}

fn tile_attrs(
    data: &[u8],
    pos: &mut usize,
    at: Position,
    flags: &mut u32,
    items: &mut Vec<MapItem>,
) -> (r: Result<(), OtbmError>)
    ensures
        match tile_attrs_from(*old(flags), trees_of(old(items)@), at, data@, *old(pos) as int) {
            Ok((f, ts)) => r is Ok && *final(flags) == f && trees_of(final(items)@) == ts,
            Err(e) => r == Err::<(), OtbmError>(e),
        },
{
    while *pos < data.len()
        invariant
            tile_attrs_from(*old(flags), trees_of(old(items)@), at, data@, *old(pos) as int)
                == tile_attrs_from(*flags, trees_of(items@), at, data@, *pos as int),
        decreases data.len() - *pos,
    {
        let tag = data[*pos];
        *pos = *pos + 1;
        if tag == OTBM_ATTR_TILE_FLAGS {
            match rd_u32(data, pos) {
                Some(v) => {
                    *flags = *flags | map_tile_flags(v);
                },
                None => {
                    return Err(OtbmError::Otb);
                },
            }
        } else if tag == OTBM_ATTR_ITEM {
            match rd_u16(data, pos) {
                Some(id) => {
                    let mut item = new_loaded_item(id);
                    item.loaded_from_map = true;
                    proof {
                        lemma_trees_push(items@, item);
                    }
                    items.push(item);
                },
                None => {
                    return Err(OtbmError::Otb);
                },
            }
        } else {
            return Err(
                OtbmError::UnknownTileAttribute { x: at.x, y: at.y, z: at.z, attribute: tag },
            );
        }
    }
    Ok(())
}

fn tile_from_node(area: Position, n: &OtbNode) -> (r: Result<TileRecord, OtbmError>)
    requires
        tile_fits(area, *n),
    ensures
        match tile_record(area, *n) {
            Ok(v) => r matches Ok(t) && tile_is(t, v),
            Err(e) => r == Err::<TileRecord, OtbmError>(e),
        },
{
    if n.node_type != OTBM_TILE && n.node_type != OTBM_HOUSETILE {
        return Err(OtbmError::UnknownTileNode(n.node_type));
    }
    let data: &[u8] = match &n.props {
        None => {
            return Err(OtbmError::CouldNotReadNodeData);
        },
        Some(p) => p.as_slice(),
    };
    let mut pos: usize = 0;
    let dx = match rd_u8(data, &mut pos) {
        None => {
            return Err(OtbmError::Otb);
        },
        Some(v) => v,
    };
    let dy = match rd_u8(data, &mut pos) {
        None => {
            return Err(OtbmError::Otb);
        },
        Some(v) => v,
    };
    let at = Position { x: area.x + dx as u16, y: area.y + dy as u16, z: area.z };
    let house_id = if n.node_type == OTBM_HOUSETILE {
        match rd_u32(data, &mut pos) {
            None => {
                return Err(OtbmError::Otb);
            },
            Some(h) => Some(h),
        }
    } else {
        None
    };
    let mut flags: u32 = 0;
    let mut items: Vec<MapItem> = Vec::new();
    proof {
        assert(trees_of(items@) =~= Seq::<ItemTree>::empty());
    }
    match tile_attrs(data, &mut pos, at, &mut flags, &mut items) {
        Ok(()) => {},
        Err(e) => {
            return Err(e);
        },
    }
    let ghost direct = trees_of(items@);
    let ghost f = |c: OtbNode| tile_child(at, c);
    proof {
        assert(tile_record(area, *n) == match each_node(n.children@, f) {
            Err(e) => Err(e),
            Ok(cs) => Ok(TileRecordView { position: at, house_id, flags, items: direct + cs }),
        });
    }
    let mut i: usize = 0;
    while i < n.children.len()
        invariant
            f == (|c: OtbNode| tile_child(at, c)),
            tile_record(area, *n) == match each_node(n.children@, f) {
                Err(e) => Err(e),
                Ok(cs) => Ok(TileRecordView { position: at, house_id, flags, items: direct + cs }),
            },
            i <= n.children@.len(),
            each_node(n.children@.subrange(0, i as int), f) matches Ok(cs) && trees_of(items@)
                == direct + cs,
        decreases n.children.len() - i,
    {
        proof {
            lemma_each_node_step(n.children@, f, i as int);
        }
        let child = &n.children[i];
        if child.node_type != OTBM_ITEM {
            proof {
                lemma_each_node_prefix_err(n.children@, f, i + 1);
            }
            return Err(
                OtbmError::UnknownNodeType {
                    x: at.x,
                    y: at.y,
                    z: at.z,
                    node_type: child.node_type,
                },
            );
        }
        match item_from_node(child) {
            Ok(c) => {
                let ghost cs = each_node(n.children@.subrange(0, i as int), f)->Ok_0;
                proof {
                    lemma_trees_push(items@, c);
                    assert((direct + cs).push(tree_of(c)) =~= direct + cs.push(tree_of(c)));
                }
                items.push(c);
            },
            Err(e) => {
                proof {
                    lemma_each_node_prefix_err(n.children@, f, i + 1);
                }
                return Err(e);
            },
        }
        i = i + 1;
    }
    proof {
        lemma_each_node_all(n.children@, f);
    }
    Ok(TileRecord { position: at, house_id, flags, items })
}

/// The tiles of the child nodes `s` of the tile area at `area`, in order.
pub open spec fn area_tile_records(area: Position, s: Seq<OtbNode>) -> Result<
    Seq<TileRecordView>,
    OtbmError,
> {
    each_node(s, |t: OtbNode| tile_record(area, t))
}

/// The tiles that tile area node `n` gives: its position (the first five
/// property bytes), then a tile for each child node.
pub open spec fn area_tiles(n: OtbNode) -> Result<Seq<TileRecordView>, OtbmError> {
    match n.props {
        None => Err(OtbmError::InvalidMapNode),
        Some(v) => match rd_pos_at(v@, 0) {
            None => Err(OtbmError::Otb),
            Some((area, _)) => area_tile_records(area, n.children@),
        },
    }
}

/// Whether the positions of the tiles of tile area node `a` fit the
/// coordinates.
pub open spec fn area_fits(a: OtbNode) -> bool {
    a.node_type == OTBM_TILE_AREA ==> match a.props {
        Some(v) => match rd_pos_at(v@, 0) {
            Some((area, _)) => forall|i: int|
                0 <= i < a.children@.len() ==> tile_fits(area, #[trigger] a.children@[i]),
            None => true,
        },
        None => true,
    }
}

/// Reads the tiles of tile area `node` onto the end of `tiles`.
fn push_area_tiles(
    node: &OtbNode,
    tiles: &mut Vec<TileRecord>,
    Ghost(acc): Ghost<Seq<TileRecordView>>,
) -> (r: Result<(), OtbmError>)
    requires
        tiles_are(old(tiles)@, acc),
        area_fits(*node),
        node.node_type == OTBM_TILE_AREA,
    ensures
        match area_tiles(*node) {
            Ok(vs) => r is Ok && tiles_are(final(tiles)@, acc + vs),
            Err(e) => r == Err::<(), OtbmError>(e),
        },
{
    let data: &[u8] = match &node.props {
        None => {
            return Err(OtbmError::InvalidMapNode);
        },
        Some(p) => p.as_slice(),
    };
    let mut pos: usize = 0;
    let area = match rd_pos(data, &mut pos) {
        None => {
            return Err(OtbmError::Otb);
        },
        Some(v) => v,
    };
    let ghost f = |t: OtbNode| tile_record(area, t);
    let mut i: usize = 0;
    while i < node.children.len()
        invariant
            f == (|t: OtbNode| tile_record(area, t)),
            area_tiles(*node) == each_node(node.children@, f),
            forall|k: int| 0 <= k < node.children@.len() ==> tile_fits(area, #[trigger] node.children@[k]),
            i <= node.children@.len(),
            each_node(node.children@.subrange(0, i as int), f) matches Ok(vs) && tiles_are(
                tiles@,
                acc + vs,
            ),
        decreases node.children.len() - i,
    {
        proof {
            lemma_each_node_step(node.children@, f, i as int);
        }
        match tile_from_node(area, &node.children[i]) {
            Ok(t) => {
                let ghost vs = each_node(node.children@.subrange(0, i as int), f)->Ok_0;
                tiles.push(t);
                proof {
                    let v = tile_record(area, node.children@[i as int])->Ok_0;
                    assert((acc + vs).push(v) =~= acc + vs.push(v));
                    assert(tiles_are(tiles@, acc + vs.push(v)));
                }
            },
            Err(e) => {
                proof {
                    lemma_each_node_prefix_err(node.children@, f, i + 1);
                }
                return Err(e);
            },
        }
        i = i + 1;
    }
    proof {
        lemma_each_node_all(node.children@, f);
    }
    Ok(())
}

/// What the map data node's attributes give: the description, the spawns
/// file name and the houses file name.
pub type MapAttrs = (Seq<char>, Option<Seq<char>>, Option<Seq<char>>);

/// The map data attributes after reading them from `p` on: a description,
/// a spawns file name or a houses file name each, a later one replacing an
/// earlier, until the end of the properties; any other attribute is
/// refused.
pub open spec fn map_attrs_from(m: MapAttrs, d: Seq<u8>, p: int) -> Result<MapAttrs, OtbmError>
    decreases d.len() - p,
{
    if p < 0 || p >= d.len() {
        Ok(m)
    } else if d[p] != OTBM_ATTR_DESCRIPTION && d[p] != OTBM_ATTR_EXT_SPAWN_FILE && d[p]
        != OTBM_ATTR_EXT_HOUSE_FILE {
        Err(OtbmError::UnknownHeaderNode(d[p]))
    } else {
        match rd_text_at(d, p + 1) {
            None => Err(OtbmError::Otb),
            Some((t, q)) => if d[p] == OTBM_ATTR_DESCRIPTION {
                map_attrs_from((t, m.1, m.2), d, q)
            } else if d[p] == OTBM_ATTR_EXT_SPAWN_FILE {
                map_attrs_from((m.0, Some(t), m.2), d, q)
            } else {
                map_attrs_from((m.0, m.1, Some(t)), d, q)
            },
        }
    }
}

/// The text of `o`, where there is one.
pub open spec fn opt_text(o: Option<String>) -> Option<Seq<char>> {
    match o {
        Some(s) => Some(s@),
        None => None,
    }
}

fn read_map_attrs(
    data: &[u8],
    description: &mut String,
    spawn_file: &mut Option<String>,
    house_file: &mut Option<String>,
) -> (r: Result<(), OtbmError>)
    ensures
        match map_attrs_from(
            (old(description)@, opt_text(*old(spawn_file)), opt_text(*old(house_file))),
            data@,
            0,
        ) {
            Ok(m) => r is Ok && final(description)@ == m.0 && opt_text(*final(spawn_file)) == m.1
                && opt_text(*final(house_file)) == m.2,
            Err(e) => r == Err::<(), OtbmError>(e),
        },
{
    let mut pos: usize = 0;
    while pos < data.len()
        invariant
            map_attrs_from(
                (old(description)@, opt_text(*old(spawn_file)), opt_text(*old(house_file))),
                data@,
                0,
            ) == map_attrs_from(
                (description@, opt_text(*spawn_file), opt_text(*house_file)),
                data@,
                pos as int,
            ),
        decreases data.len() - pos,
    {
        let tag = data[pos];
        if tag != OTBM_ATTR_DESCRIPTION && tag != OTBM_ATTR_EXT_SPAWN_FILE && tag
            != OTBM_ATTR_EXT_HOUSE_FILE {
            return Err(OtbmError::UnknownHeaderNode(tag));
        }
        pos = pos + 1;
        let text = match rd_str(data, &mut pos) {
            None => {
                return Err(OtbmError::Otb);
            },
            Some(t) => t,
        };
        if tag == OTBM_ATTR_DESCRIPTION {
            *description = text;
        } else if tag == OTBM_ATTR_EXT_SPAWN_FILE {
            *spawn_file = Some(text);
        } else {
            *house_file = Some(text);
        }
    }
    Ok(())
}

/// What the sections of the map data give, each list in file order.
pub ghost struct MapSections {
    pub tiles: Seq<TileRecordView>,
    pub towns: Seq<TownRecord>,
    pub waypoints: Seq<WaypointRecord>,
}

/// What the child nodes `s` of the map data give, for a map file of
/// version `version`: tile areas, towns lists, and (from version 2 on)
/// waypoints lists; any other node is refused.
pub open spec fn map_sections(version: u32, s: Seq<OtbNode>) -> Result<MapSections, OtbmError>
    decreases s.len(),
{
    if s.len() == 0 {
        Ok(MapSections { tiles: Seq::empty(), towns: Seq::empty(), waypoints: Seq::empty() })
    } else {
        match map_sections(version, s.subrange(0, s.len() - 1)) {
            Err(e) => Err(e),
            Ok(acc) => {
                let n = s[s.len() - 1];
                if n.node_type == OTBM_TILE_AREA {
                    match area_tiles(n) {
                        Err(e) => Err(e),
                        Ok(ts) => Ok(MapSections { tiles: acc.tiles + ts, ..acc }),
                    }
                } else if n.node_type == OTBM_TOWNS {
                    match town_records(n.children@) {
                        Err(e) => Err(e),
                        Ok(ts) => Ok(MapSections { towns: acc.towns + ts, ..acc }),
                    }
                } else if n.node_type == OTBM_WAYPOINTS && version > 1 {
                    match waypoint_records(n.children@) {
                        Err(e) => Err(e),
                        Ok(ws) => Ok(MapSections { waypoints: acc.waypoints + ws, ..acc }),
                    }
                } else {
                    Err(OtbmError::UnknownMapNode(n.node_type))
                }
            },
        }
    }
}

proof fn lemma_sections_prefix_err(version: u32, s: Seq<OtbNode>, k: int)
    requires
        0 <= k <= s.len(),
        map_sections(version, s.subrange(0, k)) is Err,
    ensures
        map_sections(version, s) == map_sections(version, s.subrange(0, k)),
    decreases s.len() - k,
{
    if k < s.len() {
        let s1 = s.subrange(0, k + 1);
        assert(s1.subrange(0, s1.len() - 1) =~= s.subrange(0, k));
        lemma_sections_prefix_err(version, s, k + 1);
    } else {
        assert(s.subrange(0, k) =~= s);
    }
}

/// The header at the start of the root's properties: the map version,
/// width and height, and the item list's major and minor versions.
pub open spec fn rd_header_at(d: Seq<u8>) -> Option<RootHeader> {
    match rd_u32_at(d, 0) {
        Some((version, _)) => match rd_u16_at(d, 4) {
            Some((width, _)) => match rd_u16_at(d, 6) {
                Some((height, _)) => match rd_u32_at(d, 8) {
                    Some((major_version_items, _)) => match rd_u32_at(d, 12) {
                        Some((minor_version_items, _)) => Some(
                            RootHeader {
                                version,
                                width,
                                height,
                                major_version_items,
                                minor_version_items,
                            },
                        ),
                        None => None,
                    },
                    None => None,
                },
                None => None,
            },
            None => None,
        },
        None => None,
    }
}

/// A map as a map file's tree gives it.
pub ghost struct MapDataView {
    pub width: u16,
    pub height: u16,
    pub description: Seq<char>,
    pub spawn_file: Option<Seq<char>>,
    pub house_file: Option<Seq<char>>,
    pub tiles: Seq<TileRecordView>,
    pub towns: Seq<TownRecord>,
    pub waypoints: Seq<WaypointRecord>,
}

/// A map as a map file's tree gives it: its size, description and the
/// names of its spawns and houses files as written in the file, its tiles,
/// towns and waypoints in file order.
#[derive(Debug)]
pub struct MapData {
    pub width: u16,
    pub height: u16,
    pub description: String,
    pub spawn_file: Option<String>,
    pub house_file: Option<String>,
    pub tiles: Vec<TileRecord>,
    pub towns: Vec<Town>,
    pub waypoints: Vec<(String, Position)>,
}

/// Whether `m` is the map `v`.
pub open spec fn map_data_is(m: MapData, v: MapDataView) -> bool {
    &&& m.width == v.width
    &&& m.height == v.height
    &&& m.description@ == v.description
    &&& opt_text(m.spawn_file) == v.spawn_file
    &&& opt_text(m.house_file) == v.house_file
    &&& tiles_are(m.tiles@, v.tiles)
    &&& towns_are(m.towns@, v.towns)
    &&& waypoints_are(m.waypoints@, v.waypoints)
}

/// The map that a map file's tree with root `root` gives, loaded with an
/// item list of major version `items_major`: the header from the root's
/// properties, checked (see `header_check`); a single map data child; its
/// attributes; then its sections (see `map_sections`).
pub open spec fn otbm_map(root: OtbNode, items_major: u32) -> Result<MapDataView, OtbmError> {
    match root.props {
        None => Err(OtbmError::MissingRootProperties),
        Some(v) => match rd_header_at(v@) {
            None => Err(OtbmError::Otb),
            Some(h) => match header_check(h, items_major) {
                Err(e) => Err(e),
                Ok(()) => if root.children@.len() != 1 || root.children@[0].node_type
                    != OTBM_MAP_DATA {
                    Err(OtbmError::MissingMapDataNode)
                } else {
                    let m = root.children@[0];
                    match m.props {
                        None => Err(OtbmError::InvalidMapDataAttributes),
                        Some(mp) => match map_attrs_from((Seq::empty(), None, None), mp@, 0) {
                            Err(e) => Err(e),
                            Ok(a) => match map_sections(h.version, m.children@) {
                                Err(e) => Err(e),
                                Ok(sec) => Ok(
                                    MapDataView {
                                        width: h.width,
                                        height: h.height,
                                        description: a.0,
                                        spawn_file: a.1,
                                        house_file: a.2,
                                        tiles: sec.tiles,
                                        towns: sec.towns,
                                        waypoints: sec.waypoints,
                                    },
                                ),
                            },
                        },
                    }
                },
            },
        },
    }
}

/// Whether the positions of all tiles of the map file's tree with root
/// `root` fit the coordinates.
pub open spec fn map_fits(root: OtbNode) -> bool {
    root.children@.len() == 1 ==> forall|j: int|
        0 <= j < root.children@[0].children@.len() ==> area_fits(
            #[trigger] root.children@[0].children@[j],
        )
}

/// Reads the map that the map file's tree with root `root` gives (see
/// `otbm_map`), for an item list of major version `items_major`.
pub fn map_from_tree(root: &OtbNode, items_major: u32) -> (r: Result<MapData, OtbmError>)
    requires
        map_fits(*root),
    ensures
        match otbm_map(*root, items_major) {
            Ok(v) => r matches Ok(m) && map_data_is(m, v),
            Err(e) => r == Err::<MapData, OtbmError>(e),
        },
{
    let data: &[u8] = match &root.props {
        None => {
            return Err(OtbmError::MissingRootProperties);
        },
        Some(p) => p.as_slice(),
    };
    let mut pos: usize = 0;
    let version = match rd_u32(data, &mut pos) {
        None => {
            return Err(OtbmError::Otb);
        },
        Some(v) => v,
    };
    let width = match rd_u16(data, &mut pos) {
        None => {
            return Err(OtbmError::Otb);
        },
        Some(v) => v,
    };
    let height = match rd_u16(data, &mut pos) {
        None => {
            return Err(OtbmError::Otb);
        },
        Some(v) => v,
    };
    let major_version_items = match rd_u32(data, &mut pos) {
        None => {
            return Err(OtbmError::Otb);
        },
        Some(v) => v,
    };
    let minor_version_items = match rd_u32(data, &mut pos) {
        None => {
            return Err(OtbmError::Otb);
        },
        Some(v) => v,
    };
    let header = RootHeader {
        version,
        width,
        height,
        major_version_items,
        minor_version_items,
    };
    match validate_root_header(header, items_major) {
        Ok(()) => {},
        Err(e) => {
            return Err(e);
        },
    }
    if root.children.len() != 1 || root.children[0].node_type != OTBM_MAP_DATA {
        return Err(OtbmError::MissingMapDataNode);
    }
    let map_node = &root.children[0];
    let map_props: &[u8] = match &map_node.props {
        None => {
            return Err(OtbmError::InvalidMapDataAttributes);
        },
        Some(p) => p.as_slice(),
    };
    let mut description = String::new();
    let mut spawn_file: Option<String> = None;
    let mut house_file: Option<String> = None;
    proof {
        assert(description@ =~= Seq::<char>::empty());
    }
    match read_map_attrs(map_props, &mut description, &mut spawn_file, &mut house_file) {
        Ok(()) => {},
        Err(e) => {
            return Err(e);
        },
    }
    let mut tiles: Vec<TileRecord> = Vec::new();
    let mut towns: Vec<Town> = Vec::new();
    let mut waypoints: Vec<(String, Position)> = Vec::new();
    let ghost a = (description@, opt_text(spawn_file), opt_text(house_file));
    let mut i: usize = 0;
    while i < map_node.children.len()
        invariant
            map_node == root.children@[0],
            root.children@.len() == 1,
            map_fits(*root),
            otbm_map(*root, items_major) == match map_sections(version, map_node.children@) {
                Err(e) => Err(e),
                Ok(sec) => Ok(
                    MapDataView {
                        width,
                        height,
                        description: a.0,
                        spawn_file: a.1,
                        house_file: a.2,
                        tiles: sec.tiles,
                        towns: sec.towns,
                        waypoints: sec.waypoints,
                    },
                ),
            },
            description@ == a.0,
            opt_text(spawn_file) == a.1,
            opt_text(house_file) == a.2,
            i <= map_node.children@.len(),
            map_sections(version, map_node.children@.subrange(0, i as int)) matches Ok(sec)
                && tiles_are(tiles@, sec.tiles) && towns_are(towns@, sec.towns) && waypoints_are(
                waypoints@,
                sec.waypoints,
            ),
        decreases map_node.children.len() - i,
    {
        let section = &map_node.children[i];
        let ghost s = map_node.children@;
        let ghost s1 = s.subrange(0, i + 1);
        let ghost acc = map_sections(version, s.subrange(0, i as int))->Ok_0;
        proof {
            assert(s1.subrange(0, s1.len() - 1) =~= s.subrange(0, i as int));
            assert(s1[s1.len() - 1] == s[i as int]);
            assert(area_fits(s[i as int]));
        }
        let step = if section.node_type == OTBM_TILE_AREA {
            push_area_tiles(section, &mut tiles, Ghost(acc.tiles))
        } else if section.node_type == OTBM_TOWNS {
            push_towns(section, &mut towns, Ghost(acc.towns))
        } else if section.node_type == OTBM_WAYPOINTS && version > 1 {
            push_waypoints(section, &mut waypoints, Ghost(acc.waypoints))
        } else {
            Err(OtbmError::UnknownMapNode(section.node_type))
        };
        match step {
            Ok(()) => {},
            Err(e) => {
                proof {
                    lemma_sections_prefix_err(version, s, i + 1);
                }
                return Err(e);
            },
        }
        i = i + 1;
    }
    proof {
        assert(map_node.children@.subrange(0, map_node.children@.len() as int)
            =~= map_node.children@);
    }
    Ok(MapData { width, height, description, spawn_file, house_file, tiles, towns, waypoints })
}

} // verus!
