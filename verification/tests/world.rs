use tfs_rust::world::vocation::{gain_cap, get_promoted_vocation, get_vocation_id, no_pong_kick_time, VocationKey};
use std::collections::HashMap;

use tfs_rust::map::{Direction, Position};
use tfs_rust::util::text::{eq_ignore_ascii_case, parse_tfs_bool, str_eq};
use tfs_rust::world::groups::{
    access_for_group_id, flags_for_group_id, player_flag_bit, GroupEntry, Groups,
    PLAYER_FLAG_CANNOT_BE_MUTED, PLAYER_FLAG_CAN_BROADCAST, PLAYER_FLAG_TALK_ORANGE_HELP_CHANNEL,
};
use tfs_rust::world::guild::Guild;
use tfs_rust::world::mounts::{MountEntry, Mounts};
use tfs_rust::world::outfit::{OutfitEntry, Outfits, PlayerSex};
use tfs_rust::world::party::{
    can_enable_shared_experience, can_use_shared_experience, get_party_shield, Party, ShareFacts,
    ShieldFacts, SHIELD_BLUE, SHIELD_BLUE_NOSHAREDEXP_BLINK, SHIELD_NONE, SHIELD_WHITEBLUE,
    SHIELD_WHITEYELLOW, SHIELD_YELLOW, SHIELD_YELLOW_SHAREDEXP,
};
use tfs_rust::world::quests::{
    Mission, MissionEntry, MissionStateEntry, QuestEntry, Quests,
};
use tfs_rust::world::raids::{
    AnnounceEvent, Raid, RaidEvent, RaidEventKind, Raids, RaidState, MESSAGE_EVENT_ADVANCE,
};
use tfs_rust::world::spawn::{Spawn, SpawnEntry, SpawnMonsterEntry, SpawnNpcEntry, Spawns};

#[test]
fn guild_members_and_ranks() {
    let mut guild = Guild::new(1, "Knights".to_string());
    guild.add_member(5);
    guild.add_member(6);
    guild.add_member(5);
    guild.remove_member(5);
    assert_eq!(guild.get_members_online(), &[6]);
    assert!(!guild.is_members_online_empty());
    guild.add_rank(1, "Leader".to_string(), 3);
    guild.add_rank(2, "Member".to_string(), 1);
    guild.add_rank(3, "Leader".to_string(), 2);
    assert_eq!(guild.get_rank_by_id(2).map(|r| r.name.clone()), Some("Member".to_string()));
    assert_eq!(guild.get_rank_by_name("Leader").map(|r| r.id), Some(1));
    assert!(guild.get_rank_by_name("leader").is_none());
    assert_eq!(guild.get_rank_by_level(2).map(|r| r.id), Some(3));
    assert!(guild.get_rank_by_level(9).is_none());
    guild.set_motd("hello".to_string());
    assert_eq!(guild.get_motd(), "hello");
    guild.set_member_count(12);
    assert_eq!(guild.get_member_count(), 12);
    assert_eq!(guild.get_name(), "Knights");
    assert_eq!(guild.get_ranks().len(), 3);
}

#[test]
fn party_invitations_and_disband() {
    let mut party = Party::new(1);
    party.invite_ids_mut().push(2);
    party.invite_ids_mut().push(3);
    assert!(party.is_player_invited(3));
    assert_eq!(party.get_invitation_count(), 2);
    assert!(party.remove_invite(2, false));
    assert!(!party.remove_invite(2, false));
    assert_eq!(party.get_invitees(), &[3]);
    assert!(party.remove_invite(3, true));
    assert!(party.is_empty());
    party.member_ids_mut().push(4);
    party.update_player_ticks(4, 0);
    assert_eq!(party.get_player_tick(4), None);
    party.update_player_ticks(4, 10);
    assert!(party.get_player_tick(4).is_some());
    party.clear_player_points(4);
    assert_eq!(party.get_player_tick(4), None);
    party.disband();
    assert_eq!(party.get_member_count(), 0);
}

fn facts() -> ShieldFacts {
    ShieldFacts {
        observer_party: None,
        target_party: None,
        shared_active: false,
        shared_enabled: false,
        target_can_share: false,
        observer_party_invited_target: false,
        target_party_invited_observer: false,
    }
}

#[test]
fn party_shields() {
    let mut f = facts();
    assert_eq!(get_party_shield(1, 2, &f), SHIELD_NONE);
    f.observer_party = Some(1);
    f.target_party = Some(1);
    assert_eq!(get_party_shield(2, 1, &f), SHIELD_YELLOW);
    assert_eq!(get_party_shield(1, 2, &f), SHIELD_BLUE);
    f.shared_active = true;
    f.shared_enabled = true;
    assert_eq!(get_party_shield(2, 1, &f), SHIELD_YELLOW_SHAREDEXP);
    f.shared_enabled = false;
    assert_eq!(get_party_shield(1, 2, &f), SHIELD_BLUE_NOSHAREDEXP_BLINK);
    let mut g = facts();
    g.observer_party = Some(1);
    g.observer_party_invited_target = true;
    assert_eq!(get_party_shield(1, 9, &g), SHIELD_WHITEBLUE);
    let mut h = facts();
    h.target_party = Some(9);
    h.target_party_invited_observer = true;
    assert_eq!(get_party_shield(1, 9, &h), SHIELD_WHITEYELLOW);
}

#[test]
fn shared_experience_rules() {
    let p = Position { x: 100, y: 100, z: 7 };
    let mut f = ShareFacts {
        member_count: 2,
        player_level: 30,
        min_level: 20,
        leader_pos: p,
        player_pos: Position { x: 130, y: 70, z: 8 },
        exempt_from_activity: false,
        last_tick: Some(1000),
        now: 2000,
        pz_locked: 60000,
    };
    assert!(can_use_shared_experience(&f));
    f.player_pos = Position { x: 131, y: 100, z: 7 };
    assert!(!can_use_shared_experience(&f));
    f.player_pos = p;
    f.last_tick = None;
    assert!(!can_use_shared_experience(&f));
    f.exempt_from_activity = true;
    assert!(can_use_shared_experience(&f));
    f.player_level = 19;
    assert!(!can_use_shared_experience(&f));
    assert!(can_enable_shared_experience(true, &[true, true]));
    assert!(!can_enable_shared_experience(true, &[true, false]));
    assert!(!can_enable_shared_experience(false, &[]));
}

#[test]
fn quests_from_entries_build_ids_and_storage_checks() {
    let quests = Quests::from_entries(vec![QuestEntry {
        name: "The Rookie Guard".to_string(),
        startstorageid: 100,
        startstoragevalue: 1,
        missions: Some(vec![MissionEntry {
            name: "Speak".to_string(),
            storageid: 101,
            startvalue: 1,
            endvalue: 3,
            ignoreendvalue: None,
            description: None,
            missionstates: Some(vec![MissionStateEntry { id: 1, description: "Hello".to_string() }]),
        }]),
    }]);
    assert_eq!(quests.get_quest_by_id(1).map(|q| q.name.as_str()), Some("The Rookie Guard"));
    assert!(quests.is_quest_storage(100, 1, 0));
    assert!(quests.is_quest_storage(101, 2, 0));
    assert!(quests.is_quest_storage(101, 2, 1));
    assert!(!quests.is_quest_storage(101, 4, 0));
    assert!(!quests.is_quest_storage(55, 1, 0));
    assert_eq!(quests.get_quests().len(), 1);

    let quest = quests.get_quest_by_id(1).unwrap();
    let mut storage = HashMap::new();
    assert!(!quest.is_started(&storage));
    storage.insert(100u32, 1i32);
    assert!(quest.is_started(&storage));
    assert!(!quest.is_completed(&storage));
    storage.insert(101, 3);
    assert!(quest.is_completed(&storage));
}

#[test]
fn mission_descriptions_use_the_highest_state_reached() {
    let mut m = Mission {
        name: "m".to_string(),
        storage_id: 5,
        start_value: 1,
        end_value: 10,
        ignore_end_value: false,
        main_description: "main".to_string(),
        descriptions: Default::default(),
    };
    m.descriptions.insert(2, "two".to_string());
    m.descriptions.insert(5, "five".to_string());
    let mut storage = HashMap::new();
    assert_eq!(m.get_description(&storage), "main");
    storage.insert(5u32, 4i32);
    assert_eq!(m.get_description(&storage), "two");
    storage.insert(5, 5);
    assert_eq!(m.get_description(&storage), "five");
    storage.insert(5, 100);
    assert_eq!(m.get_description(&storage), "five");
    assert!(m.is_started(&storage));
    assert!(m.is_completed(&storage));
    m.ignore_end_value = true;
    assert!(!m.is_completed(&storage));
}

#[test]
fn mounts_from_entries_support_lookups() {
    let mounts = Mounts::from_entries(vec![MountEntry {
        id: 1,
        clientid: 368,
        name: "Widow Queen".to_string(),
        speed: 20,
        premium: Some(true),
    }, MountEntry {
        id: 2,
        clientid: 369,
        name: "Racing Bird".to_string(),
        speed: 20,
        premium: None,
    }]);
    assert!(mounts.get_mount_by_name("widow queen").is_some());
    assert!(mounts.get_mount_by_name("widow").is_none());
    assert_eq!(mounts.get_mount_by_client_id(368).map(|m| m.id), Some(1));
    assert_eq!(mounts.get_mount_by_id(2).map(|m| m.premium), Some(false));
    assert!(mounts.get_mount_by_id(3).is_none());
    assert_eq!(mounts.get_mounts().len(), 2);
    assert!(eq_ignore_ascii_case("ÄbC", "Äbc"));
    assert!(!eq_ignore_ascii_case("äbc", "Äbc"));
}

fn outfit(kind: u8, look: u16, enabled: Option<bool>) -> OutfitEntry {
    OutfitEntry {
        enabled,
        outfit_type: kind,
        looktype: look,
        name: Some("Citizen".to_string()),
        premium: None,
        unlocked: None,
    }
}

#[test]
fn outfits_from_entries_filter_disabled_outfits() {
    let outfits = Outfits::from_entries(vec![
        outfit(0, 128, None),
        outfit(1, 129, None),
        outfit(0, 130, Some(false)),
    ])
    .unwrap();
    assert_eq!(outfits.get_outfits(PlayerSex::Female).len(), 1);
    assert!(outfits.get_outfit_by_look_type_any(129).is_some());
    assert!(outfits.get_outfit_by_look_type(PlayerSex::Female, 129).is_none());
    assert!(outfits.get_outfit_by_look_type_any(130).is_none());
    let o = outfits.get_outfit_by_look_type(PlayerSex::Male, 129).unwrap();
    assert!(o.unlocked);
    assert!(!o.premium);
    assert_eq!(Outfits::from_entries(vec![outfit(0, 1, None), outfit(2, 2, None)]).err(), Some(2));
    assert!(Outfits::from_entries(vec![outfit(3, 1, Some(false))]).is_ok());
}

#[test]
fn raids_running_and_lifecycle() {
    let mut raids = Raids::new();
    assert!(!raids.startup());
    raids.load_from_json5("raids.json5").unwrap();
    assert!(raids.is_loaded());
    assert!(raids.startup());
    assert!(!raids.startup());
    raids.set_running(Some("Orcs"));
    assert!(raids.get_running().is_none());
    assert!(raids.get_raid_by_name("orcs").is_none());
    raids.set_last_raid_end(77);
    assert_eq!(raids.get_last_raid_end(), 77);
    assert!(!raids.reload());
    assert!(!raids.is_loaded());
    assert!(!raids.is_started());
    assert_eq!(raids.get_last_raid_end(), 0);

    let mut raid = Raid::new("Orcs".to_string(), 10, 5, true);
    assert_eq!(raid.get_margin(), 5);
    assert!(raid.can_be_repeated());
    assert!(raid.get_next_raid_event().is_none());
    raid.set_state(RaidState::Executing);
    raid.reset_raid();
    raid.load_from_json5("orcs.json5").unwrap();
    assert!(raid.is_loaded());
    let ev = RaidEventKind::Announce(AnnounceEvent::new(300, "Orcs!".to_string(), MESSAGE_EVENT_ADVANCE));
    assert_eq!(ev.get_delay(), 300);
    assert!(ev.execute_event());
}

#[test]
fn spawn_blocks_and_zones() {
    let mut spawn = Spawn::new(Position { x: 100, y: 100, z: 7 }, 3);
    assert!(spawn.add_monster("rat", Position { x: 101, y: 100, z: 7 }, Direction::South, 30000));
    assert!(spawn.add_monster("cat", Position { x: 99, y: 100, z: 7 }, Direction::North, 90000));
    assert_eq!(spawn.get_interval(), 30000);
    assert_eq!(spawn.spawn_map.keys().copied().collect::<Vec<_>>(), vec![1, 2]);
    spawn.spawned_map.insert(1, 500);
    spawn.spawned_map.insert(2, 501);
    spawn.remove_monster(500);
    assert_eq!(spawn.spawned_map.keys().copied().collect::<Vec<_>>(), vec![2]);
    assert!(spawn.is_in_spawn_zone(Position { x: 103, y: 97, z: 1 }));
    assert!(!spawn.is_in_spawn_zone(Position { x: 104, y: 100, z: 7 }));
    assert!(Spawns::is_in_zone(Position { x: 0, y: 0, z: 7 }, -1, Position { x: 9000, y: 9000, z: 0 }));
    let mut spawns = Spawns::new();
    spawns.spawn_list.push(spawn);
    spawns.loaded = true;
    spawns.clear();
    assert!(!spawns.is_loaded());
    assert!(!spawns.is_started());
}

#[test]
fn groups_flags_from_entries_and_defaults() {
    let groups = Groups::from_entries(vec![GroupEntry {
        id: 1,
        name: "Tutor".to_string(),
        access: true,
        maxdepotitems: 2000,
        maxvipentries: 100,
        flag_attributes: vec![
            ("canbroadcast".to_string(), "1".to_string()),
            ("cannotbemuted".to_string(), "true".to_string()),
            ("canedithouses".to_string(), "0".to_string()),
            ("nosuchflag".to_string(), "1".to_string()),
        ],
    }]);
    let group = groups.get_group(1).unwrap();
    assert_ne!(group.flags & (1 << 16), 0);
    assert_ne!(group.flags & (1u64 << 36), 0);
    assert_eq!(group.flags, (1 << 16) | (1u64 << 36));
    assert!(groups.get_group(2).is_none());
    assert_eq!(flags_for_group_id(Some(&groups), 1), group.flags);
    assert!(access_for_group_id(Some(&groups), 1));
    assert!(!access_for_group_id(None, 1));
    assert!(access_for_group_id(None, 4));
    assert_eq!(flags_for_group_id(None, 1), 0);
    assert_eq!(
        flags_for_group_id(None, 2),
        PLAYER_FLAG_TALK_ORANGE_HELP_CHANNEL | PLAYER_FLAG_CANNOT_BE_MUTED
    );
    assert_eq!(player_flag_bit("canbroadcast"), Some(PLAYER_FLAG_CAN_BROADCAST));
    assert_eq!(player_flag_bit("ignoresendprivatecheck"), Some(1u64 << 39));
    assert_eq!(player_flag_bit("CanBroadcast"), None);
    assert!(str_eq("abc", "abc"));
    assert!(parse_tfs_bool(" yes\t"));
    assert!(parse_tfs_bool("1"));
    assert!(!parse_tfs_bool("no"));
    assert!(!parse_tfs_bool("yES"));
    assert!(!str_eq("abc", "abd"));
}

#[test]
fn spawns_load_entries_clamps_and_skips() {
    let entries = vec![
        SpawnEntry {
            centerx: Some(5),
            centery: Some(65530),
            centerz: None,
            radius: Some(2),
            monsters: vec![
                SpawnMonsterEntry { name: "rat".into(), x: Some(-10), y: Some(10), z: None, spawntime: Some(1) },
                SpawnMonsterEntry { name: "".into(), x: None, y: None, z: None, spawntime: None },
                SpawnMonsterEntry { name: "dragon".into(), x: None, y: None, z: Some(6), spawntime: None },
            ],
            npcs: vec![SpawnNpcEntry { name: "Sam".into(), x: Some(1), y: None, z: None, direction: Some(9) }],
        },
        SpawnEntry {
            centerx: None,
            centery: None,
            centerz: None,
            radius: None,
            monsters: vec![SpawnMonsterEntry { name: "".into(), x: None, y: None, z: None, spawntime: None }],
            npcs: vec![],
        },
    ];
    let mut spawns = Spawns::new();
    spawns.load_entries(entries, "spawns.xml".to_string());
    assert!(spawns.is_loaded());
    assert_eq!(spawns.filename, "spawns.xml");
    assert_eq!(spawns.spawn_list.len(), 1);
    let s = &spawns.spawn_list[0];
    assert_eq!(s.center_pos, Position { x: 5, y: 65530, z: 7 });
    assert_eq!(s.radius, 2);
    assert_eq!(s.get_interval(), 10000);
    let rat = &s.spawn_map[&1];
    assert_eq!(rat.pos, Position { x: 0, y: 65535, z: 7 });
    assert_eq!(rat.interval, 10000);
    let dragon = &s.spawn_map[&2];
    assert_eq!(dragon.pos, Position { x: 5, y: 65530, z: 6 });
    assert_eq!(dragon.interval, 60000);
    assert_eq!(s.npc_blocks.len(), 1);
    assert_eq!(s.npc_blocks[0].direction, Direction::South);
    assert_eq!(s.npc_blocks[0].pos, Position { x: 6, y: 65530, z: 7 });
    spawns.load_entries(vec![], "other.xml".to_string());
    assert_eq!(spawns.filename, "spawns.xml");
}

#[test]
fn vocations_are_found_by_name_and_promotion() {
    let vs = vec![
        VocationKey { id: 0, name: "None".to_string(), from_vocation: 0 },
        VocationKey { id: 1, name: "Sorcerer".to_string(), from_vocation: 1 },
        VocationKey { id: 5, name: "Master Sorcerer".to_string(), from_vocation: 1 },
        VocationKey { id: 9, name: "sorcerer".to_string(), from_vocation: 1 },
    ];
    assert_eq!(get_vocation_id(&vs, "SORCERER"), Some(1));
    assert_eq!(get_vocation_id(&vs, "knight"), None);
    assert_eq!(get_promoted_vocation(&vs, 1), 5);
    assert_eq!(get_promoted_vocation(&vs, 5), 0);
    assert_eq!(gain_cap(None), 500);
    assert_eq!(gain_cap(Some(10)), 1000);
    assert_eq!(no_pong_kick_time(None), 60000);
    assert_eq!(no_pong_kick_time(Some(90)), 90000);
}
