use tfs_rust::map::grid::GameMap;
use tfs_rust::map::tile::{
    MapItem, Tile, TileKind, TILESTATE_BLOCKPATH, TILESTATE_BLOCKSOLID, TILESTATE_FLOORCHANGE_DOWN,
    TILESTATE_NOLOGOUT, TILESTATE_NOPVPZONE, TILESTATE_PROTECTIONZONE, TILESTATE_PVPZONE,
};
use tfs_rust::map::Position;
use tfs_rust::net::attack::{decide_attack, AttackFacts, AttackOutcome, AttackRefusal};
use tfs_rust::net::bed::{decide_bed_use, BedFacts, BedRefusal, BedUse};
use tfs_rust::net::moving::{
    logout_refusal, map_throw_check, picked_thing, push_refusal, throw_route, throw_target_check,
    walk_refusal, walk_stops_attack, LogoutRefusal, MapThrowCheck, MoveRefusal, PickedThing,
    PushFacts, ThrowRoute,
};
use tfs_rust::net::outfit_window::{outfit_window_offers, write_outfit_window};
use tfs_rust::net::output_message::OutputMessage;
use tfs_rust::net::packets::CreatureOutfit;
use tfs_rust::net::protocol_version::ClientVersion;
use tfs_rust::net::text_window::{text_write_check, write_item_text, TextWriteCheck, TextWriteFacts};
use tfs_rust::net::use_item::{
    decide_use_item, text_window_count, use_teleport_destination, UseAction, UseFacts,
};
use tfs_rust::world::outfit::Outfit;

fn pos(x: u16, y: u16, z: u8) -> Position {
    Position { x, y, z }
}

fn ground_tile(p: Position) -> Tile {
    let mut t = Tile::new(p, TileKind::Static);
    t.ground = Some(MapItem { server_id: 100, ..MapItem::default() });
    t
}

fn floor(map: &mut GameMap, x0: u16, y0: u16, x1: u16, y1: u16, z: u8) {
    for x in x0..=x1 {
        for y in y0..=y1 {
            map.set_tile(pos(x, y, z), ground_tile(pos(x, y, z)));
        }
    }
}

fn use_facts() -> UseFacts {
    UseFacts {
        is_bed: false,
        is_container: false,
        is_depot: false,
        can_read_text: false,
        can_write_text: false,
        stackable: false,
        is_fluid: false,
        floor_change: false,
        count: 1,
        item_index: -1,
        window_text_id: 0,
        is_pz_locked: false,
    }
}

#[test]
fn text_windows_show_counts_and_fluid_colours() {
    let mut f = use_facts();
    assert_eq!(text_window_count(&f), None);
    f.stackable = true;
    f.count = 0;
    assert_eq!(text_window_count(&f), Some(1));
    f.count = 300;
    assert_eq!(text_window_count(&f), Some(255));
    f.count = 42;
    assert_eq!(text_window_count(&f), Some(42));
    f.stackable = false;
    f.is_fluid = true;
    f.count = 2;
    assert_eq!(text_window_count(&f), Some(7));
    f.count = 15;
    assert_eq!(text_window_count(&f), Some(9));
}

#[test]
fn using_containers_opens_them_where_they_are() {
    let mut map = GameMap::default();
    let mut t = ground_tile(pos(10, 10, 7));
    t.items.push(MapItem { server_id: 2589, depot_id: 3, ..MapItem::default() });
    map.set_tile(pos(10, 10, 7), t);
    let mut f = use_facts();
    f.is_container = true;
    f.is_depot = true;
    f.item_index = 0;
    assert_eq!(decide_use_item(&map, pos(10, 10, 7), 2589, &f), UseAction::OpenDepot { depot_id: 3 });
    f.item_index = 5;
    assert_eq!(decide_use_item(&map, pos(10, 10, 7), 2589, &f), UseAction::OpenDepot { depot_id: 0 });
    f.is_depot = false;
    assert_eq!(
        decide_use_item(&map, pos(10, 10, 7), 1987, &f),
        UseAction::OpenOnTile { item_index: 5 }
    );
    assert_eq!(
        decide_use_item(&map, pos(0xFFFF, 0x43, 4), 1987, &f),
        UseAction::OpenInsideContainer { parent_cid: 3, child_index: 4 }
    );
    assert_eq!(
        decide_use_item(&map, pos(0xFFFF, 3, 0), 1987, &f),
        UseAction::OpenInInventory { slot: 3 }
    );
    f.is_bed = true;
    assert_eq!(decide_use_item(&map, pos(10, 10, 7), 1987, &f), UseAction::Bed);
}

#[test]
fn using_a_readable_item_opens_the_next_text_window() {
    let map = GameMap::default();
    let mut f = use_facts();
    f.can_read_text = true;
    f.can_write_text = true;
    f.window_text_id = u32::MAX;
    assert_eq!(
        decide_use_item(&map, pos(1, 1, 7), 1949, &f),
        UseAction::TextWindow { window_text_id: 0, count_byte: None, can_write: true }
    );
}

#[test]
fn ladders_and_holes_move_the_player() {
    let mut map = GameMap::default();
    floor(&mut map, 9, 9, 11, 11, 6);
    floor(&mut map, 9, 9, 11, 11, 7);
    let f = use_facts();
    assert_eq!(use_teleport_destination(&map, pos(10, 10, 7), 1386, false), Some(pos(10, 11, 6)));
    assert_eq!(
        decide_use_item(&map, pos(10, 10, 7), 1386, &f),
        UseAction::Teleport { to: pos(10, 11, 6) }
    );
    assert_eq!(use_teleport_destination(&map, pos(10, 10, 6), 430, false), Some(pos(10, 10, 7)));
    assert_eq!(use_teleport_destination(&map, pos(10, 10, 7), 430, false), None);
    assert_eq!(use_teleport_destination(&map, pos(10, 10, 0), 1386, false), None);
    assert_eq!(decide_use_item(&map, pos(10, 10, 7), 1987, &f), UseAction::Nothing);

    let mut t = ground_tile(pos(10, 10, 6));
    t.set_flag(TILESTATE_FLOORCHANGE_DOWN);
    map.set_tile(pos(10, 10, 6), t);
    assert_eq!(use_teleport_destination(&map, pos(10, 10, 6), 1987, true), Some(pos(10, 10, 7)));

    let mut pz = ground_tile(pos(10, 10, 7));
    pz.set_flag(TILESTATE_PROTECTIONZONE);
    map.set_tile(pos(10, 10, 7), pz);
    let mut locked = use_facts();
    locked.is_pz_locked = true;
    assert_eq!(decide_use_item(&map, pos(10, 10, 6), 430, &locked), UseAction::Refused);
}

#[test]
fn drags_are_routed_by_their_ends() {
    let a = pos(10, 10, 7);
    let b = pos(11, 10, 7);
    assert_eq!(throw_route(0, a, b), ThrowRoute::Ignore);
    assert_eq!(throw_route(5, a, a), ThrowRoute::Ignore);
    assert_eq!(throw_route(5, pos(0xFFFF, 0x41, 0), b), ThrowRoute::ContainerMove);
    assert_eq!(throw_route(5, pos(0xFFFF, 3, 0), pos(0xFFFF, 0x40, 1)), ThrowRoute::ContainerMove);
    assert_eq!(throw_route(5, pos(0xFFFF, 3, 0), pos(0xFFFF, 5, 0)), ThrowRoute::InventoryToInventory);
    assert_eq!(throw_route(5, pos(0xFFFF, 3, 0), b), ThrowRoute::InventoryToGround);
    assert_eq!(throw_route(5, a, pos(0xFFFF, 3, 0)), ThrowRoute::GroundToInventory);
    assert_eq!(throw_route(5, a, b), ThrowRoute::MapToMap);
}

#[test]
fn stack_positions_pick_ground_items_and_creatures() {
    let mut map = GameMap::default();
    let mut t = ground_tile(pos(5, 5, 7));
    t.items.push(MapItem { server_id: 1, ..MapItem::default() });
    t.items.push(MapItem { server_id: 2, ..MapItem::default() });
    t.add_creature(40);
    t.add_creature(41);
    map.set_tile(pos(5, 5, 7), t);
    assert_eq!(picked_thing(&map, pos(5, 5, 7), 0), PickedThing::Nothing);
    assert_eq!(picked_thing(&map, pos(5, 5, 7), 1), PickedThing::Item { index: 0 });
    assert_eq!(picked_thing(&map, pos(5, 5, 7), 2), PickedThing::Item { index: 1 });
    assert_eq!(picked_thing(&map, pos(5, 5, 7), 3), PickedThing::Creature { id: 40 });
    assert_eq!(picked_thing(&map, pos(5, 5, 7), 4), PickedThing::Creature { id: 41 });
    assert_eq!(picked_thing(&map, pos(5, 5, 7), 5), PickedThing::Nothing);
    assert_eq!(picked_thing(&map, pos(6, 5, 7), 1), PickedThing::Nothing);
}

#[test]
fn drags_need_the_player_next_to_the_thing() {
    let p = pos(10, 10, 7);
    assert_eq!(
        map_throw_check(p, pos(10, 10, 8), pos(10, 10, 8)),
        MapThrowCheck::Refused { why: MoveRefusal::GoDownstairs }
    );
    assert_eq!(
        map_throw_check(p, pos(10, 10, 6), pos(10, 10, 6)),
        MapThrowCheck::Refused { why: MoveRefusal::GoUpstairs }
    );
    assert_eq!(map_throw_check(p, pos(12, 10, 7), pos(13, 10, 7)), MapThrowCheck::Ignore);
    assert_eq!(
        map_throw_check(p, pos(11, 10, 7), pos(19, 10, 7)),
        MapThrowCheck::Refused { why: MoveRefusal::OutOfReach }
    );
    assert_eq!(
        map_throw_check(p, pos(11, 10, 7), pos(11, 16, 7)),
        MapThrowCheck::Refused { why: MoveRefusal::OutOfReach }
    );
    assert_eq!(map_throw_check(p, pos(11, 10, 7), pos(18, 15, 7)), MapThrowCheck::Proceed);
    assert_eq!(MoveRefusal::GoDownstairs.text(), "First go downstairs.");
    assert_eq!(MoveRefusal::NotEnoughRoom.text(), "There is not enough room.");

    let mut map = GameMap::default();
    map.set_tile(pos(1, 1, 7), Tile::new(pos(1, 1, 7), TileKind::Static));
    map.set_tile(pos(2, 1, 7), ground_tile(pos(2, 1, 7)));
    assert_eq!(throw_target_check(&map, pos(0, 1, 7)), MapThrowCheck::Ignore);
    assert_eq!(
        throw_target_check(&map, pos(1, 1, 7)),
        MapThrowCheck::Refused { why: MoveRefusal::NoWay }
    );
    assert_eq!(throw_target_check(&map, pos(2, 1, 7)), MapThrowCheck::Proceed);
}

fn push_facts() -> PushFacts {
    PushFacts {
        player_id: 1,
        player_pos: pos(10, 10, 7),
        can_push_all: false,
        pushed_id: 2,
        pushed_pos: pos(11, 10, 7),
        movement_blocked: false,
        pushable: true,
        in_ghost_mode: false,
        destination_occupied: false,
    }
}

#[test]
fn pushing_creatures_follows_the_rules() {
    let mut map = GameMap::default();
    floor(&mut map, 9, 9, 13, 13, 7);
    let f = push_facts();
    assert_eq!(push_refusal(&map, &f, pos(12, 10, 7)), None);
    let mut g = f;
    g.pushable = false;
    assert_eq!(push_refusal(&map, &g, pos(12, 10, 7)), Some(MoveRefusal::CannotMove));
    g.can_push_all = true;
    assert_eq!(push_refusal(&map, &g, pos(12, 10, 7)), None);
    let mut g = f;
    g.pushed_pos = pos(12, 10, 7);
    assert_eq!(push_refusal(&map, &g, pos(13, 10, 7)), Some(MoveRefusal::NoWay));
    assert_eq!(push_refusal(&map, &f, pos(13, 10, 7)), Some(MoveRefusal::OutOfRange));
    assert_eq!(push_refusal(&map, &f, pos(12, 8, 7)), Some(MoveRefusal::OutOfRange));
    assert_eq!(push_refusal(&map, &f, pos(12, 10, 6)), Some(MoveRefusal::OutOfRange));
    let mut g = f;
    g.destination_occupied = true;
    assert_eq!(push_refusal(&map, &g, pos(12, 10, 7)), Some(MoveRefusal::NotEnoughRoom));
    let mut t = ground_tile(pos(12, 11, 7));
    t.set_flag(TILESTATE_BLOCKPATH);
    map.set_tile(pos(12, 11, 7), t);
    assert_eq!(push_refusal(&map, &f, pos(12, 11, 7)), Some(MoveRefusal::NotEnoughRoom));
    let mut pz = ground_tile(pos(11, 10, 7));
    pz.set_flag(TILESTATE_PROTECTIONZONE);
    map.set_tile(pos(11, 10, 7), pz);
    assert_eq!(push_refusal(&map, &f, pos(12, 10, 7)), Some(MoveRefusal::NotPossible));
    let mut own = f;
    own.pushed_id = 1;
    assert_eq!(push_refusal(&map, &own, pos(12, 10, 7)), None);
    map.set_tile(pos(12, 9, 7), Tile::new(pos(12, 9, 7), TileKind::Static));
    assert_eq!(push_refusal(&map, &own, pos(12, 9, 7)), Some(MoveRefusal::NotEnoughRoom));
}

#[test]
fn walking_and_logging_out_depend_on_the_tile() {
    let mut map = GameMap::default();
    floor(&mut map, 0, 0, 2, 0, 7);
    let mut solid = ground_tile(pos(1, 0, 7));
    solid.set_flag(TILESTATE_BLOCKSOLID);
    map.set_tile(pos(1, 0, 7), solid);
    let mut pz = ground_tile(pos(2, 0, 7));
    pz.set_flag(TILESTATE_PROTECTIONZONE);
    map.set_tile(pos(2, 0, 7), pz);
    map.set_tile(pos(3, 0, 7), Tile::new(pos(3, 0, 7), TileKind::Static));
    assert_eq!(walk_refusal(&map, pos(0, 0, 7)), None);
    assert_eq!(walk_refusal(&map, pos(1, 0, 7)), Some(MoveRefusal::NotEnoughRoom));
    assert_eq!(walk_refusal(&map, pos(3, 0, 7)), Some(MoveRefusal::NotPossible));
    assert_eq!(walk_refusal(&map, pos(4, 0, 7)), Some(MoveRefusal::NotPossible));
    assert!(walk_stops_attack(&map, pos(2, 0, 7), true, false));
    assert!(!walk_stops_attack(&map, pos(2, 0, 7), true, true));
    assert!(!walk_stops_attack(&map, pos(0, 0, 7), true, false));

    let mut no_logout = ground_tile(pos(5, 0, 7));
    no_logout.set_flag(TILESTATE_NOLOGOUT);
    map.set_tile(pos(5, 0, 7), no_logout);
    assert_eq!(logout_refusal(&map, pos(5, 0, 7), false, false), Some(LogoutRefusal::NoLogoutZone));
    assert_eq!(logout_refusal(&map, pos(5, 0, 7), true, true), None);
    assert_eq!(logout_refusal(&map, pos(0, 0, 7), false, true), Some(LogoutRefusal::InFight));
    assert_eq!(logout_refusal(&map, pos(2, 0, 7), false, true), None);
    assert_eq!(logout_refusal(&map, pos(9, 0, 7), false, true), None);
    assert_eq!(LogoutRefusal::NoLogoutZone.text(), "You can not logout here.");
}

fn attack_facts() -> AttackFacts {
    AttackFacts {
        creature_id: 1,
        target_id: 2,
        target_exists: true,
        attacker_is_player: true,
        attacker_pos: pos(10, 10, 7),
        target_pos: pos(11, 10, 7),
        ignore_protection_zone: false,
        cannot_use_combat: false,
        target_attackable: true,
        target_is_player: true,
        target_is_player_combat: true,
        secure_mode: false,
        target_unmarked: true,
        had_target: false,
    }
}

#[test]
fn attacks_are_refused_in_zones_and_secure_mode() {
    let mut map = GameMap::default();
    floor(&mut map, 9, 9, 12, 12, 7);
    let f = attack_facts();
    assert_eq!(decide_attack(&map, &f), AttackOutcome::Attack { clear_target: false });
    let mut g = f;
    g.creature_id = 0;
    assert_eq!(decide_attack(&map, &g), AttackOutcome::Ignore);
    let mut g = f;
    g.target_exists = false;
    assert_eq!(decide_attack(&map, &g), AttackOutcome::TargetGone);
    let mut g = f;
    g.target_id = 1;
    assert_eq!(decide_attack(&map, &g), AttackOutcome::Refused { why: AttackRefusal::Oneself });
    let mut g = f;
    g.target_id = 0;
    g.had_target = true;
    assert_eq!(decide_attack(&map, &g), AttackOutcome::Attack { clear_target: true });
    let mut g = f;
    g.secure_mode = true;
    assert_eq!(decide_attack(&map, &g), AttackOutcome::Refused { why: AttackRefusal::SecureMode });
    g.target_unmarked = false;
    assert_eq!(decide_attack(&map, &g), AttackOutcome::Attack { clear_target: false });
    let mut g = f;
    g.target_attackable = false;
    assert_eq!(decide_attack(&map, &g), AttackOutcome::Refused { why: AttackRefusal::NotAttackable });

    let mut nopvp = ground_tile(pos(10, 10, 7));
    nopvp.set_flag(TILESTATE_NOPVPZONE);
    map.set_tile(pos(10, 10, 7), nopvp);
    assert_eq!(decide_attack(&map, &f), AttackOutcome::Refused { why: AttackRefusal::FromNoPvpZone });
    let mut monster = f;
    monster.target_is_player = false;
    monster.target_is_player_combat = false;
    assert_eq!(decide_attack(&map, &monster), AttackOutcome::Attack { clear_target: false });

    let mut pz = ground_tile(pos(11, 10, 7));
    pz.set_flag(TILESTATE_PROTECTIONZONE);
    map.set_tile(pos(11, 10, 7), pz);
    assert_eq!(
        decide_attack(&map, &monster),
        AttackOutcome::Refused { why: AttackRefusal::TargetInProtectionZone }
    );
    let mut god = monster;
    god.ignore_protection_zone = true;
    assert_eq!(decide_attack(&map, &god), AttackOutcome::Attack { clear_target: false });
    let mut not_player = monster;
    not_player.attacker_is_player = false;
    assert_eq!(decide_attack(&map, &not_player), AttackOutcome::Attack { clear_target: false });
    assert_eq!(AttackRefusal::Oneself.text(), "You may not attack this player.");

    let mut map = GameMap::default();
    for p in [pos(1, 1, 7), pos(2, 1, 7)] {
        let mut t = ground_tile(p);
        t.set_flag(TILESTATE_PVPZONE);
        map.set_tile(p, t);
    }
    let mut g = f;
    g.attacker_pos = pos(1, 1, 7);
    g.target_pos = pos(2, 1, 7);
    g.secure_mode = true;
    assert_eq!(decide_attack(&map, &g), AttackOutcome::Attack { clear_target: false });
}

fn outfit(name: &str, look_type: u16, premium: bool, unlocked: bool) -> Outfit {
    Outfit { name: name.to_string(), look_type, premium, unlocked }
}

#[test]
fn outfit_window_offers_what_the_player_may_wear() {
    let available = vec![
        outfit("Citizen", 128, false, true),
        outfit("Hunter", 129, false, true),
        outfit("Knight", 131, true, true),
        outfit("Pirate", 151, false, false),
    ];
    let owned = vec![(129, 2), (151, 1), (129, 3)];
    let free = outfit_window_offers(&available, &owned, false, false);
    assert_eq!(
        free,
        vec![(128, "Citizen".to_string(), 0), (129, "Hunter".to_string(), 2), (151, "Pirate".to_string(), 1)]
    );
    let premium = outfit_window_offers(&available, &[], false, true);
    assert_eq!(premium.len(), 3);
    assert_eq!(premium[2], (131, "Knight".to_string(), 0));
    let access = outfit_window_offers(&available, &[], true, false);
    assert_eq!(access.len(), 5);
    assert_eq!(access[0], (75, "Gamemaster".to_string(), 0));
    assert_eq!(access[4], (151, "Pirate".to_string(), 3));

    let many: Vec<Outfit> = (0..60u16).map(|i| outfit("O", 200 + i, false, true)).collect();
    let capped = outfit_window_offers(&many, &[], true, false);
    assert_eq!(capped.len(), 50);
    assert_eq!(capped[49].0, 248);

    let mut o = OutputMessage::new();
    let current = CreatureOutfit { look_type: 128, look_head: 1, look_body: 2, look_legs: 3, look_feet: 4, look_addons: 0, ..CreatureOutfit::default() };
    write_outfit_window(&mut o, ClientVersion::V860, &current, &free[..1]);
    assert_eq!(
        o.get_output_buffer(),
        &[0xC8, 128, 0, 1, 2, 3, 4, 0, 1, 128, 0, 7, 0, b'C', b'i', b't', b'i', b'z', b'e', b'n', 0]
    );
    let mut o = OutputMessage::new();
    write_outfit_window(&mut o, ClientVersion::V1098, &current, &[]);
    assert_eq!(o.get_output_buffer(), &[0xC8, 128, 0, 1, 2, 3, 4, 0, 0, 0, 0, 0]);
}

fn text_facts() -> TextWriteFacts {
    TextWriteFacts {
        text_len: 5,
        max_write_len: 100,
        window_text_id: 7,
        current_window_text_id: 7,
        write_item_id: Some(1949),
        write_item_pos: Some(pos(11, 10, 7)),
        player_pos: pos(10, 10, 7),
    }
}

#[test]
fn written_texts_need_the_open_window_and_reach() {
    let f = text_facts();
    assert_eq!(text_write_check(&f), TextWriteCheck::Write { pos: pos(11, 10, 7) });
    let mut g = f;
    g.text_len = 101;
    assert_eq!(text_write_check(&g), TextWriteCheck::Ignore);
    let mut g = f;
    g.window_text_id = 8;
    assert_eq!(text_write_check(&g), TextWriteCheck::Ignore);
    let mut g = f;
    g.write_item_id = None;
    assert_eq!(text_write_check(&g), TextWriteCheck::Refused);
    let mut g = f;
    g.write_item_pos = Some(pos(12, 10, 7));
    assert_eq!(text_write_check(&g), TextWriteCheck::Refused);
    g.write_item_pos = Some(pos(0xFFFF, 3, 0));
    assert_eq!(text_write_check(&g), TextWriteCheck::Write { pos: pos(0xFFFF, 3, 0) });
}

#[test]
fn writing_sets_or_clears_the_text() {
    let mut item = MapItem { server_id: 1949, text: "old".to_string(), written_by: "Ann".to_string(), written_date: 5, count: 1, ..MapItem::default() };
    write_item_text(&mut item, b"old", &"Bob".to_string(), 9, 0);
    assert_eq!((item.text.as_str(), item.written_by.as_str(), item.written_date), ("old", "Ann", 5));
    write_item_text(&mut item, b"new", &"Bob".to_string(), 9, 0);
    assert_eq!((item.text.as_str(), item.written_by.as_str(), item.written_date), ("new", "Bob", 9));
    write_item_text(&mut item, b"", &"Bob".to_string(), 10, 1950);
    assert_eq!((item.text.as_str(), item.written_by.as_str(), item.written_date), ("", "", 0));
    assert_eq!(item.server_id, 1950);
    assert_eq!(item.count, 1);
}

fn bed_facts() -> BedFacts {
    BedFacts {
        guid: 7,
        account_id: 70,
        premium: true,
        can_edit_houses: false,
        owned_by_account: false,
        transform_to_free: 1754,
    }
}

fn bed_map(sleeper: u32, pz: bool) -> GameMap {
    let mut map = GameMap::default();
    let p = pos(20, 20, 7);
    let mut t = Tile::new(p, TileKind::House { house_id: 4 });
    t.ground = Some(MapItem { server_id: 100, ..MapItem::default() });
    t.items.push(MapItem { server_id: 1754, sleeper_guid: sleeper, ..MapItem::default() });
    if pz {
        t.set_flag(TILESTATE_PROTECTIONZONE);
    }
    map.set_tile(p, t);
    map.set_tile(pos(21, 20, 7), ground_tile(pos(21, 20, 7)));
    map.houses.add_house(4).owner = 7;
    map
}

#[test]
fn beds_are_for_premium_players_in_houses() {
    let f = bed_facts();
    let map = bed_map(0, true);
    assert_eq!(decide_bed_use(&map, pos(20, 20, 7), 1754, &f, "Bob"), BedUse::Sleep);
    assert_eq!(decide_bed_use(&map, pos(22, 20, 7), 1754, &f, "Bob"), BedUse::Ignore);
    assert_eq!(
        decide_bed_use(&map, pos(21, 20, 7), 1754, &f, "Bob"),
        BedUse::Refused { why: BedRefusal::NoHouse }
    );
    let mut g = f;
    g.premium = false;
    assert_eq!(
        decide_bed_use(&map, pos(20, 20, 7), 1754, &g, "Bob"),
        BedUse::Refused { why: BedRefusal::NeedPremium }
    );
    let map = bed_map(0, false);
    assert_eq!(
        decide_bed_use(&map, pos(20, 20, 7), 1754, &f, "Bob"),
        BedUse::Refused { why: BedRefusal::CannotUse }
    );
    let map = bed_map(9, true);
    assert_eq!(decide_bed_use(&map, pos(20, 20, 7), 1754, &f, "Bob"), BedUse::WakeUp { free_bed: true });
    let mut other = f;
    other.guid = 8;
    assert_eq!(
        decide_bed_use(&map, pos(20, 20, 7), 1754, &other, "Eve"),
        BedUse::Refused { why: BedRefusal::CannotUse }
    );
    other.can_edit_houses = true;
    assert_eq!(
        decide_bed_use(&map, pos(20, 20, 7), 1754, &other, "Eve"),
        BedUse::WakeUp { free_bed: false }
    );
    assert_eq!(BedRefusal::NeedPremium.text(), "You need a premium account.");
}
