use tfs_rust::map::houses::{
    change_house_owner, deliver_to_depot, house_evictions, move_house_items, sort_house_tile_items,
    transfer_house_items, HouseItemKind,
};
use tfs_rust::map::tile::MapItem;
use tfs_rust::map::houses::{
    set_owner, transfer_to_depot, AccessHouseLevel, AccessList, Door, House, HouseEntry, Houses, GUEST_LIST, SUBOWNER_LIST,
};
use tfs_rust::map::houses::RentPeriod;
use tfs_rust::map::rent::{
    apply_rent_action, collect_rent, collect_rents, houses_due, period_seconds, rent_action, rent_period,
    rent_warning_text, RentAction,
};
use tfs_rust::map::Position;

#[test]
fn access_list_parses_players_guilds_ranks_and_comments() {
    let mut list = AccessList::new();
    list.parse_list("  alice \n# comment\n@knights\nDragons @ Leader\nBob\n");
    assert!(list.is_in_list("Alice", "", ""));
    // lines are stored in lower case and compared in lower case
    assert!(list.is_in_list("bob", "", ""));
    assert!(list.is_in_list("BOB", "", ""));
    assert!(list.is_in_list("eve", "Knights", ""));
    assert!(list.is_in_list("eve", "dragons", "LEADER"));
    assert!(!list.is_in_list("eve", "Dragons", "member"));
    assert_eq!(list.expression_list, vec!["dragons@leader".to_string()]);
    assert!(!list.allow_everyone);
    assert_eq!(list.get_list(), "  alice \n# comment\n@knights\nDragons @ Leader\nBob\n");
}

#[test]
fn access_list_ignores_case_of_list_and_query() {
    let mut al = AccessList::new();
    al.parse_list("Alice\n@Knights");
    assert!(al.is_in_list("alice", "", ""));
    assert!(al.is_in_list("ALICE", "", ""));
    assert!(al.is_in_list("bob", "knights", ""));
    assert!(!al.is_in_list("bob", "", ""));
    assert_eq!(al.guild_list, vec!["knights".to_string()]);
}

#[test]
fn access_list_lower_cases_the_player_name() {
    let mut list = AccessList::new();
    list.parse_list("alice");
    assert!(list.is_in_list("ALICE", "", ""));
}

#[test]
fn access_list_star_admits_everyone_and_wildcards_are_ignored() {
    let mut list = AccessList::new();
    list.parse_list("a*b\n?x\n!y");
    assert!(list.player_list.is_empty());
    assert!(!list.allow_everyone);
    list.parse_list("*");
    assert!(list.allow_everyone);
    assert!(list.is_in_list("anyone", "", ""));
}

#[test]
fn access_list_reads_at_most_one_hundred_lines_and_skips_long_ones() {
    let mut text = String::new();
    for i in 0..105 {
        text.push_str(&format!("p{}\n", i));
    }
    let mut list = AccessList::new();
    list.parse_list(&text);
    assert_eq!(list.player_list.len(), 100);
    assert!(list.is_in_list("p99", "", ""));
    assert!(!list.is_in_list("p100", "", ""));

    let long = "x".repeat(101);
    list.parse_list(&long);
    assert!(list.player_list.is_empty());
    let exact = "y".repeat(100);
    list.parse_list(&exact);
    assert_eq!(list.player_list.len(), 1);
}

#[test]
fn access_list_empty_text_clears_everything() {
    let mut list = AccessList::new();
    list.parse_list("alice\n*");
    list.parse_list("");
    assert!(list.player_list.is_empty());
    assert!(!list.allow_everyone);
    assert_eq!(list.get_list(), "");
}

#[test]
fn guild_rank_expression_is_matched_in_lower_case() {
    let mut list = AccessList::new();
    list.add_guild_rank("knights", "leader");
    assert!(list.is_in_list("bob", "Knights", "Leader"));
    assert!(!list.is_in_list("bob", "Knights", ""));
}

#[test]
fn door_without_list_admits_nobody() {
    let mut door = Door::new(3, 7);
    assert_eq!(door.get_door_id(), 3);
    assert!(!door.is_player_allowed("alice", "", ""));
    assert_eq!(door.get_access_list(), None);
    door.set_access_list("alice");
    assert!(door.is_player_allowed("Alice", "", ""));
    assert_eq!(door.get_access_list(), Some("alice"));
    assert!(door.can_use(1));
    assert!(!door.read_attr(0, &[]));
}

#[test]
fn house_doors_beds_and_lists() {
    let mut house = House::with_id(5);
    assert_eq!(house.get_id(), 5);
    house.add_door(0, Position { x: 1, y: 1, z: 7 });
    house.add_door(4, Position { x: 2, y: 2, z: 7 });
    house.add_door(2, Position { x: 2, y: 2, z: 7 });
    assert_eq!(house.get_door_by_number(0), None);
    assert_eq!(house.get_door_by_number(4), Some(Position { x: 2, y: 2, z: 7 }));
    assert_eq!(house.get_door_by_position(Position { x: 2, y: 2, z: 7 }), Some(2));
    house.remove_door(2);
    assert_eq!(house.get_door_by_position(Position { x: 2, y: 2, z: 7 }), Some(4));
    assert_eq!(house.get_door_by_position(Position { x: 9, y: 9, z: 7 }), None);
    house.add_bed(Position { x: 3, y: 3, z: 7 });
    assert_eq!(house.get_bed_count(), 1);

    house.set_access_list(GUEST_LIST, "guest");
    house.set_access_list(SUBOWNER_LIST, "sub");
    house.set_access_list(7, "ignored");
    assert_eq!(house.get_access_list(GUEST_LIST), Some("guest"));
    assert_eq!(house.get_access_list(SUBOWNER_LIST), Some("sub"));
    assert_eq!(house.get_access_list(7), None);
    assert!(house.is_invited_by_name("Guest", "", ""));
    assert!(!house.is_invited_by_name("stranger", "", ""));
}

#[test]
fn house_access_levels() {
    let mut house = House::with_id(1);
    house.set_owner(42);
    house.owner_account_id = 9;
    house.set_access_list(GUEST_LIST, "guest");
    house.set_access_list(SUBOWNER_LIST, "sub");
    assert_eq!(house.access_level_for(42, 1, false, false, "x", "", ""), AccessHouseLevel::Owner);
    assert_eq!(house.access_level_for(1, 9, false, true, "x", "", ""), AccessHouseLevel::Owner);
    assert_eq!(house.access_level_for(1, 9, false, false, "x", "", ""), AccessHouseLevel::NotInvited);
    assert_eq!(house.access_level_for(1, 1, true, false, "x", "", ""), AccessHouseLevel::Owner);
    assert_eq!(house.access_level_for(1, 1, false, false, "Sub", "", ""), AccessHouseLevel::Subowner);
    assert_eq!(house.access_level_for(1, 1, false, false, "guest", "", ""), AccessHouseLevel::Guest);
    assert!(house.can_edit_access_list(SUBOWNER_LIST, AccessHouseLevel::Owner));
    assert!(house.can_edit_access_list(GUEST_LIST, AccessHouseLevel::Subowner));
    assert!(!house.can_edit_access_list(SUBOWNER_LIST, AccessHouseLevel::Subowner));
    assert!(!house.can_edit_access_list(GUEST_LIST, AccessHouseLevel::Guest));
}

#[test]
fn transfer_item_is_made_once() {
    let mut house = House::with_id(8);
    assert_eq!(house.get_transfer_item().house_id, 8);
    house.get_transfer_item().house_id = 99;
    assert_eq!(house.get_transfer_item().house_id, 99);
    house.reset_transfer_item();
    assert_eq!(house.get_transfer_item().house_id, 8);
    assert!(!house.execute_transfer(&tfs_rust::map::houses::HouseTransferItem::create(8), 1));
}

#[test]
fn houses_registry_keeps_numbers_in_order() {
    let mut houses = Houses::default();
    houses.add_house(30).owner = 7;
    houses.add_house(10);
    houses.add_house(20).owner = 7;
    houses.add_house(30).rent = 100;
    let ids: Vec<u32> = houses.get_houses().iter().map(|(id, _)| *id).collect();
    assert_eq!(ids, vec![10, 20, 30]);
    assert_eq!(houses.get_house(30).map(|h| h.rent), Some(100));
    assert!(houses.get_house(40).is_none());
    assert_eq!(houses.get_house_by_player_id(7).map(|h| h.id), Some(20));
    assert!(houses.get_house_by_player_id(8).is_none());
    houses.get_house_mut(10).unwrap().name = "Villa".to_string();
    assert_eq!(houses.get_house(10).unwrap().get_name(), "Villa");
}

#[test]
fn houses_load_entries_stops_at_an_unknown_house() {
    let mut houses = Houses::default();
    houses.add_house(1).owner = 5;
    houses.add_house(2);
    let entries = vec![
        HouseEntry { houseid: 1, name: "A".into(), entryx: 10, entryy: 11, entryz: 7, rent: 50, townid: 3 },
        HouseEntry { houseid: 9, name: "Z".into(), entryx: 0, entryy: 0, entryz: 0, rent: 0, townid: 0 },
        HouseEntry { houseid: 2, name: "B".into(), entryx: 0, entryy: 0, entryz: 0, rent: 0, townid: 0 },
    ];
    assert_eq!(houses.load_entries(&entries), Err(9));
    let h1 = houses.get_house(1).unwrap();
    assert_eq!(h1.get_name(), "A");
    assert_eq!(h1.get_entry_position(), Position { x: 10, y: 11, z: 7 });
    assert_eq!(h1.get_rent(), 50);
    assert_eq!(h1.get_town_id(), 3);
    assert_eq!(h1.get_owner(), 0);
    assert_eq!(houses.get_house(2).unwrap().get_name(), "");
    assert_eq!(houses.load_entries(&vec![]), Ok(()));
}

#[test]
fn set_owner_evicts_the_previous_owner_and_clears_lists() {
    let mut houses = Houses::default();
    {
        let h = houses.add_house(4);
        h.town_id = 2;
        h.owner = 11;
        h.owner_account_id = 3;
        h.rent_warnings = 5;
        h.set_access_list(GUEST_LIST, "guest");
    }
    assert_eq!(transfer_to_depot(&houses, 4), Some((2, 11)));
    assert_eq!(transfer_to_depot(&houses, 5), None);
    assert_eq!(set_owner(&mut houses, 4, 12), Some(11));
    let h = houses.get_house(4).unwrap();
    assert_eq!(h.get_owner(), 12);
    assert_eq!(h.owner_account_id, 0);
    assert_eq!(h.get_pay_rent_warnings(), 0);
    assert!(h.is_loaded);
    assert!(!h.is_invited_by_name("guest", "", ""));
    assert_eq!(set_owner(&mut houses, 4, 12), None);
    assert_eq!(set_owner(&mut houses, 4, 0), Some(12));
    assert_eq!(houses.get_house(4).unwrap().get_owner(), 0);
    assert_eq!(transfer_to_depot(&houses, 4), None);
    assert_eq!(set_owner(&mut houses, 9, 1), None);
}

#[test]
fn rent_is_paid_warned_or_the_house_is_lost() {
    assert_eq!(rent_period("Daily"), RentPeriod::Daily);
    assert_eq!(rent_period("WEEKLY"), RentPeriod::Weekly);
    assert_eq!(rent_period("monthly"), RentPeriod::Monthly);
    assert_eq!(rent_period("yearly"), RentPeriod::Yearly);
    assert_eq!(rent_period("never"), RentPeriod::Never);
    assert_eq!(period_seconds(RentPeriod::Weekly), Some(604800));
    assert_eq!(period_seconds(RentPeriod::Never), None);

    let mut houses = Houses::default();
    {
        let h = houses.add_house(3);
        h.owner = 10;
        h.rent = 100;
        h.paid_until = 50;
    }
    {
        let h = houses.add_house(1);
        h.owner = 11;
        h.rent = 200;
        h.paid_until = 500;
        h.rent_warnings = 2;
    }
    {
        let h = houses.add_house(2);
        h.owner = 0;
        h.rent = 300;
    }
    assert_eq!(houses_due(&houses, 100), vec![(3, 10, 100, 0)]);
    assert_eq!(houses_due(&houses, 1000), vec![(1, 11, 200, 2), (3, 10, 100, 0)]);

    assert_eq!(rent_action(None, 100, 0, 1000, 86400), RentAction::ResetOwner);
    assert_eq!(rent_action(Some(100), 100, 0, 1000, 86400), RentAction::Pay { paid_until: 87400 });
    assert_eq!(rent_action(Some(99), 100, 2, 1000, 86400), RentAction::Warn { warnings: 3, days_left: 5 });
    assert_eq!(rent_action(Some(0), 100, 7, 1000, 86400), RentAction::Evict);

    assert_eq!(apply_rent_action(&mut houses, 3, RentAction::Pay { paid_until: 87400 }), None);
    assert_eq!(houses.get_house(3).unwrap().paid_until, 87400);
    assert_eq!(apply_rent_action(&mut houses, 1, RentAction::Warn { warnings: 3, days_left: 5 }), None);
    assert_eq!(houses.get_house(1).unwrap().rent_warnings, 3);
    assert_eq!(apply_rent_action(&mut houses, 1, RentAction::Evict), Some(11));
    assert_eq!(houses.get_house(1).unwrap().owner, 0);
    assert_eq!(apply_rent_action(&mut houses, 3, RentAction::ResetOwner), None);
    assert_eq!(houses.get_house(3).unwrap().owner, 0);
    assert_eq!(apply_rent_action(&mut houses, 9, RentAction::Evict), None);

    assert_eq!(
        rent_warning_text(RentPeriod::Yearly, 1500, "Villa", 5),
        "Warning! \nThe annual rent of 1500 gold for your house \"Villa\" is payable. Have it within 5 days or you will lose this house."
    );
    assert_eq!(
        rent_warning_text(RentPeriod::Daily, 0, "", -2),
        "Warning! \nThe daily rent of 0 gold for your house \"\" is payable. Have it within -2 days or you will lose this house."
    );
}

fn item(server_id: u16, children: Vec<MapItem>) -> MapItem {
    MapItem { server_id, count: 1, children, ..MapItem::default() }
}

#[test]
fn house_items_go_to_the_depot_and_containers_stay_emptied() {
    let items = vec![
        item(1, vec![]),
        item(2, vec![item(20, vec![]), item(21, vec![])]),
        item(3, vec![]),
        item(4, vec![]),
    ];
    let kinds = vec![
        HouseItemKind::Pickupable,
        HouseItemKind::Container,
        HouseItemKind::Fixed,
        HouseItemKind::Pickupable,
    ];
    let (kept, moved) = sort_house_tile_items(items, &kinds);
    let kept_ids: Vec<u16> = kept.iter().map(|i| i.server_id).collect();
    let moved_ids: Vec<u16> = moved.iter().map(|i| i.server_id).collect();
    assert_eq!(kept_ids, vec![2, 3]);
    assert!(kept[0].children.is_empty());
    assert_eq!(moved_ids, vec![1, 20, 21, 4]);

    let mut depot = vec![item(99, vec![])];
    deliver_to_depot(&mut depot, moved);
    let depot_ids: Vec<u16> = depot.iter().map(|i| i.server_id).collect();
    assert_eq!(depot_ids, vec![4, 21, 20, 1, 99]);
}

#[test]
fn players_who_may_not_stay_are_moved_out_tile_by_tile() {
    let tiles = vec![vec![10, 11, 12], vec![], vec![13]];
    let may_stay = vec![vec![false, true, false], vec![], vec![false]];
    assert_eq!(house_evictions(&tiles, &may_stay), vec![10, 12, 13]);
}

fn rented(id: u32, owner: u32, rent: u32, paid_until: i64, warnings: u32) -> Houses {
    let mut houses = Houses::default();
    let h = houses.add_house(id);
    h.owner = owner;
    h.rent = rent;
    h.paid_until = paid_until;
    h.rent_warnings = warnings;
    houses
}

#[test]
fn collecting_rent_debits_the_owner_and_pays_the_house() {
    let mut houses = rented(3, 10, 100, 0, 0);
    let mut balances = std::collections::HashMap::new();
    balances.insert(10u32, 250u64);
    let (action, evicted) = collect_rent(&mut houses, &mut balances, (3, 10, 100, 0), 1000, 86400);
    assert_eq!(action, RentAction::Pay { paid_until: 87400 });
    assert_eq!(evicted, None);
    assert_eq!(balances[&10], 150);
    assert_eq!(houses.get_house(3).unwrap().paid_until, 87400);
}

#[test]
fn unpaid_rent_warns_then_evicts() {
    let mut houses = rented(3, 10, 100, 0, 6);
    let mut balances = std::collections::HashMap::new();
    balances.insert(10u32, 50u64);
    let (action, _) = collect_rent(&mut houses, &mut balances, (3, 10, 100, 6), 1000, 86400);
    assert_eq!(action, RentAction::Warn { warnings: 7, days_left: 1 });
    assert_eq!(houses.get_house(3).unwrap().rent_warnings, 7);
    assert_eq!(houses.get_house(3).unwrap().owner, 10);
    assert_eq!(balances[&10], 50);
    let evicted = collect_rents(&mut houses, &mut balances, RentPeriod::Daily, 1000);
    assert_eq!(evicted, vec![10]);
    assert_eq!(houses.get_house(3).unwrap().owner, 0);
    let mut houses = rented(3, 10, 100, 0, 0);
    let mut empty = std::collections::HashMap::new();
    assert_eq!(collect_rents(&mut houses, &mut empty, RentPeriod::Never, 1000), Vec::<u32>::new());
    assert_eq!(houses.get_house(3).unwrap().owner, 10);
    assert_eq!(collect_rents(&mut houses, &mut empty, RentPeriod::Weekly, 1000), Vec::<u32>::new());
    assert_eq!(houses.get_house(3).unwrap().owner, 0);
}

#[test]
fn a_changing_owner_finds_the_house_belongings_in_the_depot() {
    let mut houses = Houses::default();
    {
        let h = houses.add_house(5);
        h.owner = 10;
        h.town_id = 2;
    }
    let tiles = || vec![vec![item(1, vec![]), item(2, vec![item(20, vec![])])], vec![item(3, vec![])]];
    let kinds = vec![
        vec![HouseItemKind::Pickupable, HouseItemKind::Container],
        vec![HouseItemKind::Pickupable],
    ];
    let mut t = tiles();
    let mut depot = vec![item(99, vec![])];
    assert!(!transfer_house_items(&houses, 5, false, &mut t, &kinds, &mut depot));
    assert_eq!(depot.len(), 1);
    assert_eq!(t[0].len(), 2);
    assert!(transfer_house_items(&houses, 5, true, &mut t, &kinds, &mut depot));
    let ids = |v: &Vec<MapItem>| v.iter().map(|i| i.server_id).collect::<Vec<u16>>();
    assert_eq!(ids(&t[0]), vec![2]);
    assert!(t[0][0].children.is_empty());
    assert!(t[1].is_empty());
    assert_eq!(ids(&depot), vec![3, 20, 1, 99]);
    let mut t = tiles();
    assert!(!transfer_house_items(&houses, 6, true, &mut t, &kinds, &mut depot));
    let mut t = tiles();
    let mut other = Vec::new();
    move_house_items(&mut t, &kinds, &mut other);
    assert_eq!(ids(&other), vec![3, 20, 1]);
}

#[test]
fn changing_the_owner_moves_belongings_and_visitors_out() {
    let mut houses = Houses::default();
    {
        let h = houses.add_house(5);
        h.owner = 10;
        h.town_id = 2;
        h.is_loaded = true;
        h.rent_warnings = 3;
    }
    let mut tiles = vec![vec![item(1, vec![])]];
    let kinds = vec![vec![HouseItemKind::Pickupable]];
    let mut depot = Vec::new();
    let creatures = vec![vec![7, 8]];
    let may_stay = vec![vec![true, false]];
    let (old_owner, visitors) = change_house_owner(
        &mut houses, 5, 11, true, &mut tiles, &kinds, &mut depot, &creatures, &may_stay,
    );
    assert_eq!(old_owner, Some(10));
    assert_eq!(visitors, vec![8]);
    assert!(tiles[0].is_empty());
    assert_eq!(depot.len(), 1);
    let h = houses.get_house(5).unwrap();
    assert_eq!(h.owner, 11);
    assert_eq!(h.rent_warnings, 0);
    let (again, none) = change_house_owner(
        &mut houses, 5, 11, true, &mut tiles, &kinds, &mut depot, &creatures, &may_stay,
    );
    assert_eq!((again, none), (None, Vec::new()));
}
