use tfs_rust::util::millis_of;
use tfs_rust::util::xml::{parse_signed_str, parse_unsigned_str, parse_xml};
use tfs_rust::world::spawn::{spawn_entries_from_xml, SpawnsXmlError};
use tfs_rust::world::groups::{groups_from_xml, GroupsXmlError};

#[test]
fn groups_file_gives_groups_with_named_flags() {
    let text = r#"<groups>
    <group id="1" name="Tutor" access="1" maxdepotitems="2000" maxvipentries="100">
        <flags>
            <flag canbroadcast="1" />
            <flag cannotbemuted="1" />
        </flags>
    </group>
    <group id="x" name="Player" access="0">
        <flags><flag canbroadcast="0" /></flags>
    </group>
</groups>"#;
    let groups = groups_from_xml(text).unwrap();
    let group = groups.get_group(1).expect("group should exist");
    assert_ne!(group.flags & (1 << 16), 0);
    assert_ne!(group.flags & (1u64 << 36), 0);
    assert_eq!(group.name, "Tutor");
    assert!(group.access);
    assert_eq!(group.max_depot_items, 2000);
    assert_eq!(group.max_vip_entries, 100);
    let player = groups.get_group(0).expect("an unreadable id is 0");
    assert_eq!(player.name, "Player");
    assert_eq!(player.flags, 0);
    assert!(!player.access);
    assert_eq!(player.max_depot_items, 0);
}

#[test]
fn malformed_groups_file_is_refused() {
    assert_eq!(groups_from_xml("<groups><group></groups>").err(), Some(GroupsXmlError::Malformed));
}

#[test]
fn xml_nodes_come_in_document_order_with_parents() {
    let nodes = parse_xml("<a x=\"1\"><b/><c y=\"2\"/></a>").unwrap();
    assert_eq!(nodes[0].parent, None);
    assert_eq!(nodes[1].name, "a");
    assert_eq!(nodes[1].parent, Some(0));
    assert_eq!(nodes[2].name, "b");
    assert_eq!(nodes[2].parent, Some(1));
    assert_eq!(nodes[3].attributes, vec![("y".to_string(), "2".to_string())]);
}

#[test]
fn unsigned_numbers_are_read_as_str_parse_reads_them() {
    assert_eq!(parse_unsigned_str("65535", 65535), Some(65535));
    assert_eq!(parse_unsigned_str("65536", 65535), None);
    assert_eq!(parse_unsigned_str("+12", 65535), Some(12));
    assert_eq!(parse_unsigned_str("+", 65535), None);
    assert_eq!(parse_unsigned_str("", 65535), None);
    assert_eq!(parse_unsigned_str("1a", 65535), None);
    assert_eq!(parse_unsigned_str("-1", 65535), None);
    assert_eq!(parse_unsigned_str("007", 65535), Some(7));
}

#[test]
fn clock_readings_become_saturated_milliseconds() {
    assert_eq!(millis_of(None), 0);
    assert_eq!(millis_of(Some(1234)), 1234);
    assert_eq!(millis_of(Some(u128::MAX)), i64::MAX);
    assert_eq!(millis_of(Some(i64::MAX as u128)), i64::MAX);
}

#[test]
fn signed_numbers_are_read_as_str_parse_reads_them() {
    assert_eq!(parse_signed_str("-32768", -32768, 32767), Some(-32768));
    assert_eq!(parse_signed_str("-32769", -32768, 32767), None);
    assert_eq!(parse_signed_str("32767", -32768, 32767), Some(32767));
    assert_eq!(parse_signed_str("+5", -32768, 32767), Some(5));
    assert_eq!(parse_signed_str("-", -32768, 32767), None);
    assert_eq!(parse_signed_str("-+1", -32768, 32767), None);
    assert_eq!(parse_signed_str("", -32768, 32767), None);
    assert_eq!(parse_signed_str("-0", -32768, 32767), Some(0));
}

#[test]
fn spawns_file_gives_entries_in_order() {
    let text = r#"<spawns>
    <spawn centerx="100" centery="200" centerz="7" radius="3">
        <monster name="Rat" x="-1" y="2" z="7" spawntime="60" />
        <npc name="Sam" x="0" y="1" z="7" direction="2" />
        <monster name="Bug" x="1" y="oops" z="7" />
    </spawn>
    <other />
    <spawn centerx="70000" radius="-5" />
</spawns>"#;
    let entries = spawn_entries_from_xml(text).unwrap();
    assert_eq!(entries.len(), 2);
    let first = &entries[0];
    assert_eq!(first.centerx, Some(100));
    assert_eq!(first.centery, Some(200));
    assert_eq!(first.centerz, Some(7));
    assert_eq!(first.radius, Some(3));
    assert_eq!(first.monsters.len(), 2);
    assert_eq!(first.monsters[0].name, "Rat");
    assert_eq!(first.monsters[0].x, Some(-1));
    assert_eq!(first.monsters[0].y, Some(2));
    assert_eq!(first.monsters[0].spawntime, Some(60));
    assert_eq!(first.monsters[1].name, "Bug");
    assert_eq!(first.monsters[1].y, None);
    assert_eq!(first.monsters[1].spawntime, None);
    assert_eq!(first.npcs.len(), 1);
    assert_eq!(first.npcs[0].name, "Sam");
    assert_eq!(first.npcs[0].direction, Some(2));
    let second = &entries[1];
    assert_eq!(second.centerx, None);
    assert_eq!(second.centery, None);
    assert_eq!(second.radius, Some(-5));
    assert!(second.monsters.is_empty());
    assert!(second.npcs.is_empty());
}

#[test]
fn malformed_spawns_file_is_refused() {
    assert_eq!(spawn_entries_from_xml("<spawns><spawn></spawns>").err(), Some(SpawnsXmlError::Malformed));
}
