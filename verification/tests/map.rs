use tfs_rust::map::grid::GameMap;
use tfs_rust::map::item_attrs::{apply_item_attr, read_item_attrs, write_item_attrs, ATTR_TEXT};
use tfs_rust::map::path::find_path;
use tfs_rust::map::reach::{can_teleport_to, player_is_near_depot_box, step_position};
use tfs_rust::map::tile::{
    MapItem, Tile, TileKind, TILESTATE_BLOCKSOLID, TILESTATE_FLOORCHANGE_DOWN,
    TILESTATE_DEPOT, TILESTATE_FLOORCHANGE_NORTH, TILESTATE_FLOORCHANGE_SOUTH_ALT,
    TILESTATE_PROTECTIONZONE,
};
use tfs_rust::map::{Direction, Position, Town};

fn pos(x: u16, y: u16, z: u8) -> Position {
    Position { x, y, z }
}

fn ground_tile(p: Position) -> Tile {
    let mut t = Tile::new(p, TileKind::Static);
    t.ground = Some(MapItem { server_id: 100, ..MapItem::default() });
    t
}

fn floor_of(map: &mut GameMap, x0: u16, y0: u16, x1: u16, y1: u16, z: u8) {
    for x in x0..=x1 {
        for y in y0..=y1 {
            map.set_tile(pos(x, y, z), ground_tile(pos(x, y, z)));
        }
    }
}

fn step(p: Position, d: Direction) -> Position {
    let (dx, dy): (i32, i32) = match d {
        Direction::North => (0, -1),
        Direction::South => (0, 1),
        Direction::East => (1, 0),
        Direction::West => (-1, 0),
        Direction::NorthEast => (1, -1),
        Direction::SouthEast => (1, 1),
        Direction::NorthWest => (-1, -1),
        Direction::SouthWest => (-1, 1),
    };
    Position { x: (p.x as i32 + dx) as u16, y: (p.y as i32 + dy) as u16, z: p.z }
}

#[test]
fn tile_stacks_and_creatures() {
    let mut t = ground_tile(pos(1, 1, 7));
    assert!(t.is_walkable());
    assert!(!t.is_moveable_blocking());
    t.set_flag(TILESTATE_BLOCKSOLID);
    assert!(t.has_flag(TILESTATE_BLOCKSOLID));
    assert!(!t.is_walkable());
    assert!(t.is_moveable_blocking());

    t.add_creature(5);
    t.add_creature(6);
    assert_eq!(t.get_creatures(), &[6, 5]);
    assert_eq!(t.get_creature_count(), 2);
    assert_eq!(t.get_client_index_of_creature(5), 1);
    assert_eq!(t.get_client_index_of_creature(6), 2);
    assert_eq!(t.get_client_index_of_creature(7), -1);
    t.items.push(MapItem { server_id: 7, ..MapItem::default() });
    t.items.push(MapItem { server_id: 8, ..MapItem::default() });
    assert_eq!(t.get_top_item_count(), 2);
    assert_eq!(t.get_down_item_count(), 0);
    assert_eq!(t.get_creature_client_stackpos(), 3);
    assert_eq!(t.get_client_index_of_creature(5), 3);
    assert_eq!(t.find_item_index_by_server_id(8), Some(1));
    assert_eq!(t.find_item_index_by_server_id(9), None);
    assert_eq!(t.item_client_stackpos(1), 2);
    assert_eq!(t.get_use_item(0).map(|i| i.server_id), Some(100));
    assert_eq!(t.get_use_item(2).map(|i| i.server_id), Some(8));
    assert_eq!(t.get_use_item(3).map(|i| i.server_id), Some(7));
    assert!(t.get_use_item(5).is_none());
    assert_eq!(t.get_top_top_item().map(|i| i.server_id), Some(8));
    assert!(t.get_top_down_item().is_none());
    t.remove_creature(5);
    assert_eq!(t.get_creatures(), &[6]);
    t.remove_creature(42);
    assert_eq!(t.get_creatures(), &[6]);
}

#[test]
fn map_tiles_are_read_back_and_removed() {
    let mut map = GameMap::default();
    map.set_tile(pos(100, 100, 7), ground_tile(pos(100, 100, 7)));
    map.set_tile(pos(5, 5, 16), ground_tile(pos(5, 5, 16)));
    assert!(map.get_tile(pos(100, 100, 7)).is_some());
    assert!(map.get_tile(pos(100, 100, 6)).is_none());
    assert!(map.get_tile(pos(5, 5, 16)).is_none());
    if let Some(t) = map.get_tile_mut(pos(100, 100, 7)) {
        t.set_flag(TILESTATE_BLOCKSOLID);
    }
    assert!(map.get_tile(pos(100, 100, 7)).unwrap().has_flag(TILESTATE_BLOCKSOLID));
    assert!(map.get_tile_mut(pos(1, 1, 7)).is_none());
    let removed = map.remove_tile(pos(100, 100, 7));
    assert!(removed.is_some());
    assert!(map.get_tile(pos(100, 100, 7)).is_none());
    assert!(map.remove_tile(pos(100, 100, 7)).is_none());
}

#[test]
fn spectators_come_from_the_blocks_around() {
    let mut map = GameMap::default();
    floor_of(&mut map, 96, 96, 104, 104, 7);
    map.set_tile(pos(200, 200, 7), ground_tile(pos(200, 200, 7)));
    map.add_creature_to_tile(pos(100, 100, 7), 1, true);
    map.add_creature_to_tile(pos(101, 100, 7), 2, false);
    map.add_creature_to_tile(pos(200, 200, 7), 3, true);
    assert_eq!(map.get_tile(pos(100, 100, 7)).unwrap().get_creatures(), &[1]);

    let players = map.get_spectators(pos(100, 100, 7), true, true, 0, 0, 0, 0);
    assert_eq!(players, vec![1]);
    let all = map.get_spectators(pos(100, 100, 7), true, false, 0, 0, 0, 0);
    assert_eq!(all, vec![1, 2]);
    assert_eq!(map.get_spectators(pos(100, 100, 7), true, true, 0, 0, 0, 0), vec![1]);
    // A default search for players at a position whose search for all
    // creatures is cached, but not its search for players, answers with the
    // cached list of all creatures.
    assert_eq!(map.get_spectators(pos(101, 101, 7), true, false, 0, 0, 0, 0), vec![1, 2]);
    assert_eq!(map.get_spectators(pos(101, 101, 7), true, true, 0, 0, 0, 0), vec![1, 2]);
    assert_eq!(map.get_spectators(pos(101, 101, 7), true, true, 5, 5, 5, 5), vec![1]);
    let far = map.get_spectators(pos(200, 200, 7), false, false, 1, 1, 1, 1);
    assert_eq!(far, vec![3]);
    assert!(map.get_spectators(pos(100, 100, 16), true, false, 0, 0, 0, 0).is_empty());

    map.move_creature_on_map(pos(100, 100, 7), pos(200, 200, 7), 1, true);
    assert_eq!(map.get_tile(pos(100, 100, 7)).unwrap().get_creatures(), &[] as &[u32]);
    assert_eq!(map.get_tile(pos(200, 200, 7)).unwrap().get_creatures(), &[1, 3]);
    assert_eq!(map.get_spectators(pos(100, 100, 7), true, false, 0, 0, 0, 0), vec![2]);
    assert_eq!(map.get_spectators(pos(200, 200, 7), true, true, 0, 0, 0, 0), vec![3, 1]);

    map.remove_creature_from_tile(pos(101, 100, 7), 2, false);
    assert!(map.get_spectators(pos(100, 100, 7), true, false, 0, 0, 0, 0).is_empty());
}

#[test]
fn floor_changes_and_stairs() {
    let mut map = GameMap::default();
    let mut hole = ground_tile(pos(50, 50, 7));
    hole.set_flag(TILESTATE_FLOORCHANGE_DOWN);
    map.set_tile(pos(50, 50, 7), hole);
    let mut below = ground_tile(pos(50, 50, 8));
    below.set_flag(TILESTATE_FLOORCHANGE_NORTH);
    map.set_tile(pos(50, 50, 8), below);
    map.set_tile(pos(50, 51, 8), ground_tile(pos(50, 51, 8)));
    assert_eq!(map.resolve_floor_change_destination(pos(50, 50, 7)), Some(pos(50, 51, 8)));

    let mut ramp = ground_tile(pos(60, 60, 7));
    ramp.set_flag(TILESTATE_FLOORCHANGE_SOUTH_ALT);
    map.set_tile(pos(60, 60, 7), ramp);
    map.set_tile(pos(60, 62, 6), ground_tile(pos(60, 62, 6)));
    assert_eq!(map.resolve_floor_change_destination(pos(60, 60, 7)), Some(pos(60, 62, 6)));

    map.set_tile(pos(70, 70, 7), ground_tile(pos(70, 70, 7)));
    assert_eq!(map.resolve_floor_change_destination(pos(70, 70, 7)), Some(pos(70, 70, 7)));
    assert_eq!(map.resolve_floor_change_destination(pos(71, 70, 7)), None);

    assert_eq!(map.move_upstairs_position(pos(10, 10, 0)), None);
    assert_eq!(map.move_upstairs_position(pos(10, 10, 5)), Some(pos(10, 11, 4)));
    map.set_tile(pos(11, 10, 4), ground_tile(pos(11, 10, 4)));
    assert_eq!(map.move_upstairs_position(pos(10, 10, 5)), Some(pos(11, 10, 4)));
    map.set_tile(pos(10, 11, 4), ground_tile(pos(10, 11, 4)));
    assert_eq!(map.move_upstairs_position(pos(10, 10, 5)), Some(pos(10, 11, 4)));

    map.towns.insert(3, Town { id: 3, name: "Thais".to_string(), temple_pos: pos(1, 2, 7) });
    assert_eq!(map.get_town_temple_pos(3), Some(pos(1, 2, 7)));
    assert_eq!(map.get_town_temple_pos(4), None);
}

#[test]
fn paths_go_around_walls() {
    let mut map = GameMap::default();
    floor_of(&mut map, 0, 0, 9, 9, 7);
    for y in 0..=7u16 {
        if let Some(t) = map.get_tile_mut(pos(5, y, 7)) {
            t.set_flag(TILESTATE_BLOCKSOLID);
        }
    }
    let start = pos(2, 2, 7);
    let target = pos(8, 2, 7);
    let dirs = find_path(&map, start, target, 0, 0, true, false, 0).expect("a path exists");
    let mut p = start;
    for d in dirs.iter().rev() {
        p = step(p, *d);
        assert!(map.get_tile(p).unwrap().is_walkable());
    }
    assert_eq!(p, target);
    assert!(dirs.len() >= 7);

    assert!(find_path(&map, start, pos(8, 2, 6), 0, 0, true, false, 0).is_none());
    assert_eq!(find_path(&map, start, pos(3, 3, 7), 0, 1, true, false, 0), Some(vec![]));
    assert!(find_path(&map, start, pos(40, 2, 7), 0, 0, true, false, 0).is_none());
    assert!(find_path(&map, start, pos(40, 2, 7), 0, 0, true, false, 50).is_none());

    let dirs = find_path(&map, start, pos(4, 2, 7), 1, 1, true, false, 0).expect("a square next to it");
    let mut p = start;
    for d in dirs.iter().rev() {
        p = step(p, *d);
    }
    assert_eq!((p.x as i32 - 4).abs().max((p.y as i32 - 2).abs()), 1);
}

#[test]
fn steps_teleports_and_depots() {
    let mut map = GameMap::default();
    floor_of(&mut map, 10, 10, 12, 12, 7);
    assert_eq!(step_position(&map, pos(11, 11, 7), Direction::NorthWest), Some(pos(10, 10, 7)));
    assert_eq!(step_position(&map, pos(12, 12, 7), Direction::East), None);
    map.set_tile(pos(65535, 5, 7), ground_tile(pos(65535, 5, 7)));
    assert_eq!(step_position(&map, pos(0, 5, 7), Direction::West), Some(pos(65535, 5, 7)));

    assert!(can_teleport_to(&map, pos(11, 11, 7), true));
    assert!(!can_teleport_to(&map, pos(20, 20, 7), false));
    if let Some(t) = map.get_tile_mut(pos(11, 11, 7)) {
        t.set_flag(TILESTATE_PROTECTIONZONE);
    }
    assert!(!can_teleport_to(&map, pos(11, 11, 7), true));
    assert!(can_teleport_to(&map, pos(11, 11, 7), false));
    map.set_tile(pos(12, 10, 7), Tile::new(pos(12, 10, 7), TileKind::Static));
    assert!(!can_teleport_to(&map, pos(12, 10, 7), false));

    assert!(!player_is_near_depot_box(&map, pos(11, 11, 7)));
    if let Some(t) = map.get_tile_mut(pos(12, 12, 7)) {
        t.set_flag(TILESTATE_DEPOT);
    }
    assert!(player_is_near_depot_box(&map, pos(11, 11, 7)));
    assert!(!player_is_near_depot_box(&map, pos(10, 10, 7)));
}

#[test]
fn item_attributes_are_read_back() {
    let item = MapItem {
        server_id: 1987,
        count: 300,
        action_id: 2000,
        unique_id: 3000,
        text: "Hello ✓".to_string(),
        charges: 7,
        duration: -5,
        written_date: 86400,
        written_by: "Bo".to_string(),
        name: "sword".to_string(),
        attack: 12,
        hit_chance: -3,
        teleport_destination: Some(pos(1, 2, 7)),
        sleep_start: 9,
        ..MapItem::default()
    };
    let mut out = Vec::new();
    write_item_attrs(&item, true, true, &mut out);
    assert_eq!(&out[..2], &[15, 255]);
    assert_eq!(&out[2..5], &[22, 7, 0]);
    assert_eq!(&out[5..8], &[4, 0xD0, 0x07]);

    let mut back = MapItem { server_id: 1987, count: 1, ..MapItem::default() };
    let mut pos_in = 0usize;
    assert_eq!(read_item_attrs(&mut back, &out, &mut pos_in), Some(()));
    assert_eq!(pos_in, out.len());
    assert_eq!(back.count, 255);
    assert_eq!(back.action_id, 2000);
    assert_eq!(back.unique_id, 3000);
    assert_eq!(back.text, "Hello ✓");
    assert_eq!(back.charges, 7);
    assert_eq!(back.duration, -5);
    assert_eq!(back.written_date, 86400);
    assert_eq!(back.written_by, "Bo");
    assert_eq!(back.name, "sword");
    assert_eq!(back.attack, 12);
    assert_eq!(back.hit_chance, -3);
    assert_eq!(back.teleport_destination, Some(pos(1, 2, 7)));
    assert_eq!(back.sleep_start, 9);

    let mut out2 = Vec::new();
    write_item_attrs(&item, false, false, &mut out2);
    assert_eq!(out2[0], 22);

    let mut target = MapItem::default();
    let mut p = 0usize;
    assert_eq!(apply_item_attr(&mut target, 99, &[1, 2], &mut p), None);
    let mut p = 0usize;
    assert_eq!(apply_item_attr(&mut target, ATTR_TEXT, &[5, 0, b'a'], &mut p), None);
    let mut p = 0usize;
    assert_eq!(apply_item_attr(&mut target, ATTR_TEXT, &[2, 0, 0xFF, b'a'], &mut p), Some(()));
    assert_eq!(target.text, "\u{FFFD}a");
    assert_eq!(p, 4);
    let mut p = 1usize;
    let mut t2 = MapItem::default();
    assert_eq!(read_item_attrs(&mut t2, &[9, 15, 4, 0, 24, 1, 0], &mut p), Some(()));
    assert_eq!(t2.count, 4);
    assert_eq!(p, 4);
}
