use tfs_rust::map::tile::MapItem;
use tfs_rust::map::serialize::{
    deserialize_item, load_container, load_item, save_item, save_tile, serialize_item, SaveFacts, SavedItem,
};

fn plain(id: u16, attrs: Vec<u8>) -> SavedItem {
    SavedItem { id, attrs, container_items: None }
}

#[test]
fn saved_item_is_id_attributes_and_end_byte() {
    let mut out = vec![9u8];
    save_item(0x1234, &[15, 5], None, &mut out);
    assert_eq!(out, vec![9, 0x34, 0x12, 15, 5, 0]);
}

#[test]
fn saved_container_lists_held_items_last_first() {
    let children = vec![plain(1, vec![]), plain(2, vec![15, 3])];
    let mut out = Vec::new();
    save_item(7, &[], Some(&children), &mut out);
    assert_eq!(
        out,
        vec![7, 0, 23, 2, 0, 0, 0, 2, 0, 15, 3, 0, 1, 0, 0, 0]
    );
}

#[test]
fn saved_nested_containers_keep_their_items() {
    let inner = SavedItem { id: 5, attrs: vec![], container_items: Some(vec![plain(6, vec![])]) };
    let mut out = Vec::new();
    save_item(4, &[], Some(&[inner]), &mut out);
    assert_eq!(
        out,
        vec![4, 0, 23, 1, 0, 0, 0, 5, 0, 23, 1, 0, 0, 0, 6, 0, 0, 0, 0]
    );
}

#[test]
fn saved_tile_starts_with_position_and_count() {
    let mut out = Vec::new();
    save_tile(&[], 100, 200, 7, &mut out);
    assert!(out.is_empty());
    save_tile(&[plain(3, vec![]), plain(4, vec![17, 2])], 0x0102, 0x0304, 7, &mut out);
    assert_eq!(
        out,
        vec![2, 1, 4, 3, 7, 2, 0, 0, 0, 3, 0, 0, 4, 0, 17, 2, 0]
    );
}

#[test]
fn loaded_item_gives_back_what_was_saved() {
    let attrs = vec![15, 5, 6, 2, 0, b'h', b'i', 34, 1, 0, 0, 0, 0, 0, 0, 0, 1, 0, b'k', 4, 1];
    let mut out = vec![0xAA];
    save_item(2598, &attrs, None, &mut out);
    out.push(0xBB);
    let mut pos = 1usize;
    let (id, back) = load_item(&out, &mut pos).unwrap();
    assert_eq!(id, 2598);
    assert_eq!(back, attrs);
    assert_eq!(pos, out.len() - 1);
}

#[test]
fn loaded_item_stops_after_the_container_tag() {
    let children = vec![plain(1, vec![])];
    let mut out = Vec::new();
    save_item(7, &[22, 1, 0], Some(&children), &mut out);
    let mut pos = 0usize;
    let (id, back) = load_item(&out, &mut pos).unwrap();
    assert_eq!((id, back), (7, vec![22, 1, 0]));
    assert_eq!(pos, 6);
}

#[test]
fn loading_refuses_unknown_tags_and_short_values() {
    let mut pos = 0usize;
    assert!(load_item(&[1, 0, 2, 0], &mut pos).is_err());
    let mut pos = 0usize;
    assert!(load_item(&[1, 0, 3, 1, 2], &mut pos).is_err());
    let mut pos = 0usize;
    assert!(load_item(&[1], &mut pos).is_err());
    let mut pos = 0usize;
    assert!(load_item(&[1, 0, 34, 1, 0, 0, 0, 0, 0, 0, 0, 0, 0, 9], &mut pos).is_err());
}

#[test]
fn loaded_item_attributes_may_end_with_the_bytes() {
    let mut pos = 0usize;
    let (id, back) = load_item(&[3, 0, 15, 9], &mut pos).unwrap();
    assert_eq!((id, back), (3, vec![15, 9]));
    assert_eq!(pos, 4);
}

#[test]
fn container_items_are_read_until_a_zero_byte() {
    let data = [1, 0, 15, 2, 0, 5, 2, 0, 0, 0, 8];
    let mut pos = 0usize;
    let items = load_container(&data, &mut pos).unwrap();
    assert_eq!(items, vec![(1, vec![15, 2]), (2, vec![])]);
    assert_eq!(pos, 10);
    let mut pos = 0usize;
    assert!(load_container(&[1, 0, 0], &mut pos).is_err());
}

#[test]
fn deserialized_item_holds_its_attributes_and_items() {
    let children = vec![plain(2, vec![15, 4]), plain(3, vec![])];
    let mut out = Vec::new();
    save_item(9, &[15, 5, 4, 0x10, 0x27], Some(&children), &mut out);
    let mut pos = 0usize;
    let item = deserialize_item(&out, &mut pos).unwrap();
    assert_eq!(pos, out.len());
    assert_eq!(item.server_id, 9);
    assert_eq!(item.count, 5);
    assert_eq!(item.action_id, 10000);
    assert_eq!(item.children.len(), 2);
    assert_eq!(item.children[0].server_id, 3);
    assert_eq!(item.children[0].count, 1);
    assert_eq!(item.children[1].server_id, 2);
    assert_eq!(item.children[1].count, 4);
}

#[test]
fn deserializing_needs_the_end_byte() {
    let mut pos = 0usize;
    assert!(deserialize_item(&[9, 0, 15, 5], &mut pos).is_none());
    let mut pos = 0usize;
    assert!(deserialize_item(&[9, 0, 2, 0], &mut pos).is_none());
    let mut pos = 0usize;
    assert!(deserialize_item(&[9, 0, 23, 1, 0, 0, 0, 0], &mut pos).is_none());
}

#[test]
fn deserialized_plain_item_is_what_was_saved() {
    let mut out = vec![1, 2];
    save_item(2160, &[15, 77, 5, 0x39, 0x30], None, &mut out);
    out.push(3);
    let mut pos = 2usize;
    let item = deserialize_item(&out, &mut pos).unwrap();
    assert_eq!(pos, out.len() - 1);
    assert_eq!(item.server_id, 2160);
    assert_eq!(item.count, 77);
    assert_eq!(item.unique_id, 12345);
    assert!(item.children.is_empty());
}

fn leaf_facts(count_type: bool) -> SaveFacts {
    SaveFacts { count_type, moveable: true, is_container: false, children: vec![] }
}

#[test]
fn serialized_containers_store_their_items_last_first() {
    let coins = MapItem { server_id: 2148, count: 7, ..MapItem::default() };
    let rope = MapItem { server_id: 2120, count: 1, action_id: 4000, ..MapItem::default() };
    let bag = MapItem { server_id: 1987, count: 1, children: vec![coins, rope], ..MapItem::default() };
    let facts = SaveFacts {
        count_type: false,
        moveable: true,
        is_container: true,
        children: vec![leaf_facts(true), leaf_facts(false)],
    };
    let mut out = Vec::new();
    serialize_item(&bag, &facts, &mut out);
    let mut expected = vec![0xC3, 0x07, 23, 2, 0, 0, 0];
    expected.extend_from_slice(&[0x48, 0x08, 4, 0xA0, 0x0F, 0]);
    expected.extend_from_slice(&[0x64, 0x08, 15, 7, 0]);
    expected.push(0);
    assert_eq!(out, expected);

    let mut pos = 0;
    let back = deserialize_item(&out, &mut pos).expect("item should read back");
    assert_eq!(pos, out.len());
    assert_eq!(back.server_id, 1987);
    let ids: Vec<u16> = back.children.iter().map(|c| c.server_id).collect();
    assert_eq!(ids, vec![2120, 2148]);
    assert_eq!(back.children[0].action_id, 4000);
    assert_eq!(back.children[1].count, 7);
}
