use tfs_rust::map::otbm::{
    map_from_tree, OtbNode, OtbmError, OTBM_ATTR_DESCRIPTION, OTBM_ATTR_EXT_HOUSE_FILE,
    OTBM_ATTR_EXT_SPAWN_FILE, OTBM_ATTR_ITEM, OTBM_ATTR_TILE_FLAGS, OTBM_HOUSETILE, OTBM_ITEM,
    OTBM_MAP_DATA, OTBM_TILE, OTBM_TILEFLAG_PROTECTIONZONE, OTBM_TILE_AREA, OTBM_TOWN, OTBM_TOWNS,
    OTBM_WAYPOINT, OTBM_WAYPOINTS,
};
use tfs_rust::map::tile::TILESTATE_PROTECTIONZONE;
use tfs_rust::map::Position;

fn node(node_type: u8, props: Vec<u8>, children: Vec<OtbNode>) -> OtbNode {
    OtbNode { node_type, props: Some(props), children }
}

fn push_string_attr(bytes: &mut Vec<u8>, attribute: u8, value: &str) {
    bytes.push(attribute);
    bytes.extend_from_slice(&(value.len() as u16).to_le_bytes());
    bytes.extend_from_slice(value.as_bytes());
}

fn root_props(version: u32) -> Vec<u8> {
    let mut bytes = Vec::new();
    bytes.extend_from_slice(&version.to_le_bytes());
    bytes.extend_from_slice(&256u16.to_le_bytes());
    bytes.extend_from_slice(&512u16.to_le_bytes());
    bytes.extend_from_slice(&3u32.to_le_bytes());
    bytes.extend_from_slice(&19u32.to_le_bytes());
    bytes
}

fn map_data(sections: Vec<OtbNode>) -> OtbNode {
    let mut props = Vec::new();
    push_string_attr(&mut props, OTBM_ATTR_DESCRIPTION, "Forgotten Test");
    push_string_attr(&mut props, OTBM_ATTR_EXT_SPAWN_FILE, "forgotten-spawn.xml");
    push_string_attr(&mut props, OTBM_ATTR_EXT_HOUSE_FILE, "forgotten-house.xml");
    node(OTBM_MAP_DATA, props, sections)
}

fn tile_area() -> OtbNode {
    let mut area = Vec::new();
    area.extend_from_slice(&100u16.to_le_bytes());
    area.extend_from_slice(&200u16.to_le_bytes());
    area.push(7);

    let mut tile = vec![0, 0, OTBM_ATTR_TILE_FLAGS];
    tile.extend_from_slice(&OTBM_TILEFLAG_PROTECTIONZONE.to_le_bytes());
    tile.push(OTBM_ATTR_ITEM);
    tile.extend_from_slice(&100u16.to_le_bytes());

    let mut item = Vec::new();
    item.extend_from_slice(&101u16.to_le_bytes());
    item.push(4);
    item.extend_from_slice(&4500u16.to_le_bytes());
    item.push(6);
    item.extend_from_slice(&5u16.to_le_bytes());
    item.extend_from_slice(b"hello");
    item.push(0);

    let mut house_tile = vec![1, 0];
    house_tile.extend_from_slice(&77u32.to_le_bytes());

    node(
        OTBM_TILE_AREA,
        area,
        vec![
            node(OTBM_TILE, tile, vec![node(OTBM_ITEM, item, vec![])]),
            node(OTBM_HOUSETILE, house_tile, vec![]),
        ],
    )
}

fn towns() -> OtbNode {
    let mut town = Vec::new();
    town.extend_from_slice(&1u32.to_le_bytes());
    town.extend_from_slice(&6u16.to_le_bytes());
    town.extend_from_slice(b"Temple");
    town.extend_from_slice(&101u16.to_le_bytes());
    town.extend_from_slice(&201u16.to_le_bytes());
    town.push(7);
    node(OTBM_TOWNS, vec![], vec![node(OTBM_TOWN, town, vec![])])
}

fn waypoints() -> OtbNode {
    let mut waypoint = Vec::new();
    waypoint.extend_from_slice(&5u16.to_le_bytes());
    waypoint.extend_from_slice(b"depot");
    waypoint.extend_from_slice(&102u16.to_le_bytes());
    waypoint.extend_from_slice(&202u16.to_le_bytes());
    waypoint.push(7);
    node(OTBM_WAYPOINTS, vec![], vec![node(OTBM_WAYPOINT, waypoint, vec![])])
}

#[test]
fn load_from_path_should_parse_otbm_header_tiles_towns_and_waypoints() {
    let root = node(1, root_props(2), vec![map_data(vec![tile_area(), towns(), waypoints()])]);
    let map = map_from_tree(&root, 3).expect("otbm should load");

    assert_eq!(map.width, 256);
    assert_eq!(map.height, 512);
    assert!(map.description.contains("Forgotten"));
    assert!(map.spawn_file.as_deref().unwrap_or_default().ends_with("forgotten-spawn.xml"));
    assert!(map.house_file.as_deref().unwrap_or_default().ends_with("forgotten-house.xml"));

    let tile = map
        .tiles
        .iter()
        .find(|t| t.position == Position { x: 100, y: 200, z: 7 })
        .expect("tile should exist");
    assert_eq!(tile.items.len(), 2);
    assert_eq!(tile.items[0].server_id, 100);
    assert_eq!(tile.items[1].action_id, 4500);
    assert_eq!(tile.items[1].text, "hello");
    assert!(tile.items[1].loaded_from_map);
    assert_ne!(tile.flags & TILESTATE_PROTECTIONZONE, 0);

    let house_tiles: Vec<_> = map.tiles.iter().filter(|t| t.house_id == Some(77)).collect();
    assert_eq!(house_tiles.len(), 1);
    assert_eq!(house_tiles[0].position, Position { x: 101, y: 200, z: 7 });
    assert_eq!(map.towns.iter().find(|t| t.id == 1).map(|t| t.name.as_str()), Some("Temple"));
    assert_eq!(
        map.waypoints.iter().find(|w| w.0 == "depot").map(|w| w.1.x),
        Some(102)
    );
}

#[test]
fn version_one_maps_have_no_waypoints_list() {
    let root = node(1, root_props(1), vec![map_data(vec![waypoints()])]);
    assert_eq!(map_from_tree(&root, 3).unwrap_err(), OtbmError::UnknownMapNode(OTBM_WAYPOINTS));
}

#[test]
fn map_file_errors_are_reported() {
    let missing = OtbNode { node_type: 1, props: None, children: vec![] };
    assert_eq!(map_from_tree(&missing, 3).unwrap_err(), OtbmError::MissingRootProperties);
    let short = node(1, vec![2, 0, 0], vec![]);
    assert_eq!(map_from_tree(&short, 3).unwrap_err(), OtbmError::Otb);
    let new_items = node(1, root_props(2), vec![map_data(vec![])]);
    assert_eq!(map_from_tree(&new_items, 2).unwrap_err(), OtbmError::UnsupportedItemMajorVersion(3));
    let no_data = node(1, root_props(2), vec![]);
    assert_eq!(map_from_tree(&no_data, 3).unwrap_err(), OtbmError::MissingMapDataNode);
    let bad_attr = node(1, root_props(2), vec![node(OTBM_MAP_DATA, vec![7], vec![])]);
    assert_eq!(map_from_tree(&bad_attr, 3).unwrap_err(), OtbmError::UnknownHeaderNode(7));
    let bad_item = node(
        1,
        root_props(2),
        vec![map_data(vec![node(
            OTBM_TILE_AREA,
            vec![0, 0, 0, 0, 7],
            vec![node(OTBM_TILE, vec![1, 2], vec![node(OTBM_ITEM, vec![5, 0, 99], vec![])])],
        )])],
    );
    assert_eq!(map_from_tree(&bad_item, 3).unwrap_err(), OtbmError::UnsupportedItemAttribute(99));
    let bad_child = node(
        1,
        root_props(2),
        vec![map_data(vec![node(
            OTBM_TILE_AREA,
            vec![0, 0, 0, 0, 7],
            vec![node(OTBM_TILE, vec![1, 2], vec![node(OTBM_TOWN, vec![], vec![])])],
        )])],
    );
    assert_eq!(
        map_from_tree(&bad_child, 3).unwrap_err(),
        OtbmError::UnknownNodeType { x: 1, y: 2, z: 7, node_type: OTBM_TOWN }
    );
}
