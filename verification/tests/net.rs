use tfs_rust::map::{Direction, Position};
use tfs_rust::net::challenge::write_challenge;
use tfs_rust::net::game_login::{
    check_game_login, read_game_login_body, read_game_login_header, split_session, GameLoginRefusal,
};
use tfs_rust::net::login::{
    check_login_version, push_decimal, read_login_credentials, read_login_header,
    write_character_list, write_login_error, CharacterEntry, CharacterListData, LoginRefusal,
};
use tfs_rust::net::message::NetworkMessage;
use tfs_rust::net::output_message::OutputMessage;
use tfs_rust::net::geometry::{
    can_see_position, check_creature_as_known, floor_iter, floor_range, is_adjacent, next_position,
    MoveEndpoint,
};
use tfs_rust::net::packets::{
    write_cancel_target, write_change_speed, write_creature_health, write_creature_outfit,
    write_creature_say, write_creature_turn, write_house_window, write_magic_effect,
    write_quest_log, write_quest_line, write_remove_tile_thing, write_text_window, write_vip,
    CreatureOutfit,
};
use tfs_rust::net::say::{decide_say, whispered_text, SayAction, SayFacts};
use tfs_rust::net::status::{
    decode_status_request, format_ip, write_status_info, xml_escape, StatusInfo, StatusRequest,
};
use std::collections::HashSet;
use tfs_rust::net::protocol_version::{
    max_known_creatures, message_status_small, translate_message_class_to_client,
    translate_speak_class_from_client, translate_speak_class_to_client, ClientVersion,
};
use tfs_rust::net::requests::{decode_client_request, receive_client_request, ClientRequest};
use tfs_rust::net::server::{ProtocolKind, ServiceInfo, ServiceManager};
use tfs_rust::util::adler_checksum;

fn incoming(bytes: &[u8]) -> NetworkMessage {
    let mut m = NetworkMessage::new();
    m.add_bytes(bytes);
    m.set_buffer_position(0);
    m
}

#[test]
fn client_versions_and_translations() {
    assert_eq!(ClientVersion::V860.min_version(), 860);
    assert_eq!(ClientVersion::V1098.min_version(), 1097);
    assert_eq!(ClientVersion::V1098.max_version(), 1098);
    assert_eq!(ClientVersion::from_min_version(1097), ClientVersion::V1098);
    assert_eq!(ClientVersion::from_min_version(860), ClientVersion::V860);
    assert_eq!(max_known_creatures(ClientVersion::V860), 1300);
    assert_eq!(translate_speak_class_to_client(ClientVersion::V860, 4), 4);
    assert_eq!(translate_speak_class_to_client(ClientVersion::V1098, 4), 12);
    assert_eq!(translate_speak_class_from_client(ClientVersion::V1098, 12), 4);
    assert_eq!(translate_speak_class_from_client(ClientVersion::V1098, 10), 5);
    assert_eq!(translate_speak_class_to_client(ClientVersion::V1098, 99), 99);
    assert_eq!(translate_message_class_to_client(ClientVersion::V1098, 19), 36);
    assert_eq!(translate_message_class_to_client(ClientVersion::V860, 19), 19);
    assert_eq!(message_status_small(ClientVersion::V860), 4);
    assert_eq!(message_status_small(ClientVersion::V1098), 21);
}

#[test]
fn packet_layouts() {
    let mut o = OutputMessage::new();
    write_creature_health(&mut o, 0x0102_0304, 55);
    assert_eq!(o.get_output_buffer(), &[0x8C, 4, 3, 2, 1, 55]);

    let mut o = OutputMessage::new();
    write_magic_effect(&mut o, Position { x: 0x0100, y: 2, z: 7 }, 13);
    assert_eq!(o.get_output_buffer(), &[0x83, 0, 1, 2, 0, 7, 13]);

    let mut o = OutputMessage::new();
    write_creature_turn(&mut o, ClientVersion::V860, Position { x: 1, y: 2, z: 3 }, 12, 9, Direction::West);
    assert_eq!(o.get_output_buffer(), &[0x6B, 0xFF, 0xFF, 9, 0, 0, 0, 0x63, 0, 9, 0, 0, 0, 3]);

    let mut o = OutputMessage::new();
    write_creature_turn(&mut o, ClientVersion::V1098, Position { x: 1, y: 2, z: 3 }, 1, 9, Direction::North);
    assert_eq!(o.get_output_buffer(), &[0x6B, 1, 0, 2, 0, 3, 1, 0x63, 0, 9, 0, 0, 0, 0, 0]);

    let mut o = OutputMessage::new();
    write_change_speed(&mut o, ClientVersion::V1098, 1, 220, 300);
    assert_eq!(o.get_output_buffer(), &[0x8F, 1, 0, 0, 0, 110, 0, 150, 0]);

    let mut o = OutputMessage::new();
    write_creature_say(&mut o, ClientVersion::V1098, "Al", 8, 6, Position { x: 1, y: 1, z: 7 }, b"hi");
    assert_eq!(
        o.get_output_buffer(),
        &[0xAA, 0, 0, 0, 0, 2, 0, b'A', b'l', 8, 0, 5, 1, 0, 1, 0, 7, 2, 0, b'h', b'i']
    );

    let mut o = OutputMessage::new();
    write_vip(&mut o, ClientVersion::V1098, 7, "Bo", true);
    assert_eq!(o.get_output_buffer(), &[0xD2, 7, 0, 0, 0, 2, 0, b'B', b'o', 0, 0, 0, 0, 0, 0, 0, 1]);

    let mut o = OutputMessage::new();
    write_quest_log(&mut o, &[(1, "Q", true), (2, "R", false)]);
    assert_eq!(o.get_output_buffer(), &[0xF0, 2, 0, 1, 0, 1, 0, b'Q', 1, 2, 0, 1, 0, b'R', 0]);

    let mut o = OutputMessage::new();
    write_quest_line(&mut o, 3, &[("a".to_string(), "b".to_string())]);
    assert_eq!(o.get_output_buffer(), &[0xF1, 3, 0, 1, 1, 0, b'a', 1, 0, b'b']);

    let mut o = OutputMessage::new();
    write_cancel_target(&mut o);
    assert_eq!(o.get_output_buffer(), &[0xA3, 0, 0, 0, 0]);
}

#[test]
fn decode_walk_throw_and_unknown_requests() {
    let mut m = incoming(&[0x65]);
    assert_eq!(decode_client_request(&mut m, ClientVersion::V860), ClientRequest::Walk(Direction::North));

    let mut m = incoming(&[0x78, 1, 0, 2, 0, 7, 0x10, 0, 3, 4, 0, 5, 0, 6, 9]);
    assert_eq!(
        decode_client_request(&mut m, ClientVersion::V860),
        ClientRequest::Throw {
            from_pos: Position { x: 1, y: 2, z: 7 },
            sprite_id: 0x10,
            from_stackpos: 3,
            to_pos: Position { x: 4, y: 5, z: 6 },
            count: 9,
        }
    );

    let mut m = incoming(&[0x64, 2, 1, 3]);
    assert_eq!(decode_client_request(&mut m, ClientVersion::V860), ClientRequest::AutoWalk { dirs: vec![1, 3] });

    let mut m = incoming(&[0xA1, 4, 3, 2, 1]);
    assert_eq!(decode_client_request(&mut m, ClientVersion::V860), ClientRequest::Attack(0x0102_0304));

    let mut m = incoming(&[0x01]);
    assert_eq!(decode_client_request(&mut m, ClientVersion::V860), ClientRequest::Unknown(1));

    let mut m = incoming(&[0xE7]);
    assert_eq!(decode_client_request(&mut m, ClientVersion::V860), ClientRequest::Ignored(0xE7));
}

#[test]
fn decode_say_per_version() {
    let mut m = incoming(&[0x96, 6, 2, 0, b'B', b'o', 2, 0, b'h', b'i']);
    assert_eq!(
        decode_client_request(&mut m, ClientVersion::V860),
        ClientRequest::Say { speak_type: 6, channel_id: None, receiver: Some(b"Bo".to_vec()), text: b"hi".to_vec() }
    );
    let mut m = incoming(&[0x96, 7, 5, 0, 1, 0, b'x']);
    assert_eq!(
        decode_client_request(&mut m, ClientVersion::V1098),
        ClientRequest::Say { speak_type: 7, channel_id: Some(5), receiver: None, text: b"x".to_vec() }
    );
    let mut m = incoming(&[0x96, 5, 1, 0, b'R', 1, 0, b'y']);
    assert_eq!(
        decode_client_request(&mut m, ClientVersion::V1098),
        ClientRequest::Say { speak_type: 6, channel_id: None, receiver: Some(b"R".to_vec()), text: b"y".to_vec() }
    );
}

#[test]
fn login_header_credentials_and_refusals() {
    let mut bytes = vec![2, 0, 0x5C, 0x03];
    bytes.extend_from_slice(&[0; 12]);
    let mut m = incoming(&bytes);
    assert_eq!(read_login_header(&mut m, ClientVersion::V860), 860);
    assert_eq!(m.get_buffer_position(), 8 + 16);
    assert_eq!(check_login_version(860, ClientVersion::V860), None);
    assert_eq!(check_login_version(760, ClientVersion::V860), Some(LoginRefusal::TooOld));
    assert_eq!(check_login_version(1098, ClientVersion::V860), Some(LoginRefusal::WrongVersion { min: 860 }));
    assert_eq!(check_login_version(1098, ClientVersion::V1098), None);

    let mut m = incoming(&[1, 0, 0, 0, 2, 0, 0, 0, 3, 0, 0, 0, 4, 0, 0, 0, 1, 0, b'a', 2, 0, b'p', b'w']);
    let c = read_login_credentials(&mut m);
    assert_eq!(c.key, [1, 2, 3, 4]);
    assert_eq!(c.account, b"a".to_vec());
    assert_eq!(c.password, b"pw".to_vec());

    let mut o = OutputMessage::new();
    write_login_error(&mut o, ClientVersion::V860, b"no");
    assert_eq!(o.get_output_buffer(), &[0x0A, 2, 0, b'n', b'o']);
}

#[test]
fn decimal_digits() {
    let mut v = Vec::new();
    push_decimal(&mut v, 0);
    push_decimal(&mut v, 4095);
    assert_eq!(v, b"04095".to_vec());
}

#[test]
fn character_list_layouts() {
    let data = CharacterListData {
        account: b"acc".to_vec(),
        password: b"pw".to_vec(),
        motd: b"hi".to_vec(),
        motd_num: 12,
        server_name: b"S".to_vec(),
        ip: b"I".to_vec(),
        game_port: 7172,
        characters: vec![CharacterEntry { name: b"C".to_vec(), world_ip: 1, world_port: 2 }],
        free_premium: false,
        premium_days: 0,
        now: 1000,
    };
    let mut o = OutputMessage::new();
    write_character_list(&mut o, ClientVersion::V860, &data);
    assert_eq!(
        o.get_output_buffer(),
        &[0x14, 5, 0, b'1', b'2', 10, b'h', b'i', 0x64, 1, 1, 0, b'C', 1, 0, b'S', 1, 0, 0, 0, 2, 0, 0, 0]
    );
    let mut d = data.clone();
    d.premium_days = 1;
    d.motd = Vec::new();
    let mut o = OutputMessage::new();
    write_character_list(&mut o, ClientVersion::V1098, &d);
    let until = 1000u32 + 86400;
    let mut expected = vec![0x28, 6, 0, b'a', b'c', b'c', 10, b'p', b'w', 0x64, 1, 0, 1, 0, b'S', 1, 0, b'I'];
    expected.extend_from_slice(&7172u16.to_le_bytes());
    expected.extend_from_slice(&[0, 1, 0, 1, 0, b'C', 0, 1]);
    expected.extend_from_slice(&until.to_le_bytes());
    assert_eq!(o.get_output_buffer(), expected.as_slice());
}

#[test]
fn challenge_packet_layout() {
    let mut o = OutputMessage::new();
    write_challenge(&mut o, 0x0A0B_0C0D, 0x42);
    let body = [6u8, 0, 0x1F, 0x0D, 0x0C, 0x0B, 0x0A, 0x42];
    let sum = adler_checksum(&body).to_le_bytes();
    let mut expected = vec![12u8, 0];
    expected.extend_from_slice(&sum);
    expected.extend_from_slice(&body);
    assert_eq!(o.get_output_buffer(), expected.as_slice());
}

#[test]
fn game_login_reading_and_checks() {
    let mut m = incoming(&[2, 0, 0x4A, 0x04, 1, 2, 3, 4, 5, 6, 7]);
    assert_eq!(read_game_login_header(&mut m, ClientVersion::V1098), (2, 1098));
    assert_eq!(m.get_buffer_position(), 8 + 11);

    let mut bytes = vec![1, 0, 0, 0, 2, 0, 0, 0, 3, 0, 0, 0, 4, 0, 0, 0, 0];
    bytes.extend_from_slice(&[1, 0, b'a', 1, 0, b'c', 1, 0, b'p']);
    bytes.extend_from_slice(&[9, 0, 0, 0, 5]);
    let mut m = incoming(&bytes);
    let body = read_game_login_body(&mut m, ClientVersion::V860);
    assert_eq!(body.account, b"a".to_vec());
    assert_eq!(body.character, b"c".to_vec());
    assert_eq!(body.password, b"p".to_vec());
    assert_eq!(body.timestamp, 9);
    assert_eq!(body.random, 5);
    assert_eq!(check_game_login(&body, 860, 9, 5, ClientVersion::V860), None);
    assert_eq!(check_game_login(&body, 860, 9, 6, ClientVersion::V860), Some(GameLoginRefusal::ChallengeMismatch));
    assert_eq!(check_game_login(&body, 861, 9, 5, ClientVersion::V860), Some(GameLoginRefusal::WrongVersion { min: 860 }));
    let mut empty = body.clone();
    empty.account = Vec::new();
    assert_eq!(check_game_login(&empty, 1, 0, 0, ClientVersion::V860), Some(GameLoginRefusal::EmptyAccount));

    let (a, p) = split_session(&b"acc\npass\ntok\n1".to_vec());
    assert_eq!((a, p), (b"acc".to_vec(), b"pass".to_vec()));
    let (a, p) = split_session(&b"only".to_vec());
    assert_eq!((a, p), (b"only".to_vec(), Vec::new()));
    let (a, p) = split_session(&b"x\ny".to_vec());
    assert_eq!((a, p), (b"x".to_vec(), b"y".to_vec()));
}

#[test]
fn services_are_grouped_by_port() {
    let info = |id: u8, kind: ProtocolKind| ServiceInfo { protocol_id: id, checksummed: true, server_sends_first: false, kind };
    let mut manager = ServiceManager::new();
    manager.add_service(7171, info(1, ProtocolKind::Login));
    manager.add_service(7172, info(0, ProtocolKind::Game));
    manager.add_service(7171, info(255, ProtocolKind::Status));
    let ports = manager.ports();
    assert_eq!(ports.len(), 2);
    assert_eq!(ports[0].port, 7171);
    assert_eq!(ports[0].services.len(), 2);
    assert_eq!(ports[0].services[1].kind, ProtocolKind::Status);
    assert_eq!(ports[1].services.len(), 1);
}

#[test]
fn view_ranges_and_floors() {
    let me = Position { x: 100, y: 100, z: 7 };
    assert!(can_see_position(me, Position { x: 92, y: 94, z: 7 }));
    assert!(can_see_position(me, Position { x: 109, y: 107, z: 7 }));
    assert!(!can_see_position(me, Position { x: 91, y: 100, z: 7 }));
    assert!(!can_see_position(me, Position { x: 110, y: 100, z: 7 }));
    assert!(!can_see_position(me, Position { x: 100, y: 100, z: 8 }));
    assert!(can_see_position(me, Position { x: 93, y: 95, z: 6 }));
    let deep = Position { x: 100, y: 100, z: 10 };
    assert!(can_see_position(deep, Position { x: 100, y: 100, z: 12 }));
    assert!(!can_see_position(deep, Position { x: 100, y: 100, z: 13 }));
    assert!(is_adjacent(me, Position { x: 101, y: 99, z: 3 }));
    assert!(!is_adjacent(me, Position { x: 102, y: 100, z: 7 }));

    assert_eq!(floor_range(7), (7, 0, -1));
    assert_eq!(floor_range(10), (8, 12, 1));
    assert_eq!(floor_range(14), (12, 15, 1));
    assert_eq!(floor_iter(7, 0, -1), vec![7, 6, 5, 4, 3, 2, 1, 0]);
    assert_eq!(floor_iter(8, 12, 1), vec![8, 9, 10, 11, 12]);
}

#[test]
fn steps_and_move_endpoints() {
    let p = Position { x: 10, y: 10, z: 7 };
    assert_eq!(next_position(0, p), Position { x: 10, y: 9, z: 7 });
    assert_eq!(next_position(1, p), Position { x: 11, y: 10, z: 7 });
    assert_eq!(next_position(4, p), Position { x: 9, y: 11, z: 7 });
    assert_eq!(next_position(7, p), Position { x: 11, y: 9, z: 7 });
    assert_eq!(next_position(9, p), p);

    assert_eq!(
        MoveEndpoint::decode(Position { x: 0xFFFF, y: 0x43, z: 5 }, 0),
        MoveEndpoint::Container { cid: 3, slot: 5 }
    );
    assert_eq!(MoveEndpoint::decode(Position { x: 0xFFFF, y: 6, z: 0 }, 0), MoveEndpoint::Inventory { slot: 6 });
    assert_eq!(
        MoveEndpoint::decode(Position { x: 5, y: 6, z: 7 }, 2),
        MoveEndpoint::Ground { pos: Position { x: 5, y: 6, z: 7 }, stackpos: 2 }
    );
}

#[test]
fn known_creatures_forget_another_when_full() {
    let mut known = HashSet::new();
    assert_eq!(check_creature_as_known(&mut known, 5), (true, 0));
    assert_eq!(check_creature_as_known(&mut known, 5), (false, 0));
    for id in 100..1399u32 {
        assert_eq!(check_creature_as_known(&mut known, id), (true, 0));
    }
    assert_eq!(known.len(), 1300);
    let (new, forgotten) = check_creature_as_known(&mut known, 7);
    assert!(new);
    assert_ne!(forgotten, 7);
    assert_ne!(forgotten, 0);
    assert_eq!(known.len(), 1300);
    assert!(known.contains(&7));
    assert!(!known.contains(&forgotten));
}

#[test]
fn status_requests_and_answers() {
    let mut m = incoming(&[0xFF, b'i', b'n', b'f', b'o']);
    assert_eq!(decode_status_request(&mut m), StatusRequest::StatusString);
    let mut m = incoming(&[0x01, 0xA1, 0, 0, 0, 2, 0, b'A', b'b']);
    assert_eq!(
        decode_status_request(&mut m),
        StatusRequest::Info { requested: 0xA1, char_name: b"Ab".to_vec() }
    );
    let mut m = incoming(&[0x07]);
    assert_eq!(decode_status_request(&mut m), StatusRequest::Other(7));

    assert_eq!(xml_escape("a<b & 'c' \"d\">"), "a&lt;b &amp; &apos;c&apos; &quot;d&quot;&gt;");
    assert_eq!(xml_escape("plain"), "plain");
    assert_eq!(format_ip(0x0100_007F), "127.0.0.1");
    assert_eq!(format_ip(0xFFFF_FFFF), "255.255.255.255");
    assert_eq!(format_ip(0x0A14_1E28), "40.30.20.10");

    let info = StatusInfo {
        server_name: b"S".to_vec(),
        ip: b"I".to_vec(),
        login_port: 7171,
        owner_name: b"O".to_vec(),
        owner_email: b"E".to_vec(),
        motd: b"M".to_vec(),
        location: b"L".to_vec(),
        url: b"U".to_vec(),
        uptime: 5,
        max_players: 100,
        players_record: 9,
        free_premium: true,
        software_name: b"N".to_vec(),
        software_version: b"V".to_vec(),
        client_version: b"C".to_vec(),
    };
    let mut o = OutputMessage::new();
    write_status_info(&mut o, 0x21, &info);
    assert_eq!(
        o.get_output_buffer(),
        &[0x10, 1, 0, b'S', 1, 0, b'I', 0x03, 0x1C, 0x20, 0, 0, 100, 0, 9, 0, 0, 0, 0x01]
    );
    let mut o = OutputMessage::new();
    let mut no_premium = info.clone();
    no_premium.free_premium = false;
    write_status_info(&mut o, 0x86, &no_premium);
    assert_eq!(
        o.get_output_buffer(),
        &[
            0x11, 1, 0, b'O', 1, 0, b'E', 0x12, 1, 0, b'M', 1, 0, b'L', 1, 0, b'U', 5, 0, 0, 0, 0, 0, 0, 0,
            0x23, 1, 0, b'N', 1, 0, b'V', 1, 0, b'C'
        ]
    );
}

#[test]
fn window_and_outfit_layouts() {
    let mut o = OutputMessage::new();
    write_remove_tile_thing(&mut o, Position { x: 1, y: 2, z: 7 }, 3);
    write_remove_tile_thing(&mut o, Position { x: 1, y: 2, z: 7 }, 10);
    assert_eq!(o.get_output_buffer(), &[0x6C, 1, 0, 2, 0, 7, 3]);

    let mut o = OutputMessage::new();
    write_house_window(&mut o, 0x0102_0304, b"x");
    assert_eq!(o.get_output_buffer(), &[0x97, 0, 4, 3, 2, 1, 1, 0, b'x']);

    let mut o = OutputMessage::new();
    write_text_window(&mut o, 1, 0x0B0A, Some(3), b"hi", b"", 0, false, 500);
    assert_eq!(o.get_output_buffer(), &[0x96, 1, 0, 0, 0, 0x0A, 0x0B, 3, 2, 0, 2, 0, b'h', b'i', 0, 0, 0, 0]);

    let mut o = OutputMessage::new();
    write_text_window(&mut o, 1, 2, None, b"", b"Bo", 86400, true, 500);
    let mut expected = vec![0x96, 1, 0, 0, 0, 2, 0, 0xF4, 1, 0, 0, 2, 0, b'B', b'o', 11, 0];
    expected.extend_from_slice(b"02 Jan 1970");
    assert_eq!(o.get_output_buffer(), expected.as_slice());

    let looks = CreatureOutfit {
        look_type: 128,
        look_type_ex: 0,
        look_head: 1,
        look_body: 2,
        look_legs: 3,
        look_feet: 4,
        look_addons: 3,
        look_mount: 368,
    };
    let mut o = OutputMessage::new();
    write_creature_outfit(&mut o, ClientVersion::V860, 9, &looks);
    assert_eq!(o.get_output_buffer(), &[0x8E, 9, 0, 0, 0, 128, 0, 1, 2, 3, 4, 3]);
    let mut o = OutputMessage::new();
    write_creature_outfit(&mut o, ClientVersion::V1098, 9, &looks);
    assert_eq!(o.get_output_buffer(), &[0x8E, 9, 0, 0, 0, 128, 0, 1, 2, 3, 4, 3, 0x70, 1]);
    let item_look = CreatureOutfit { look_type: 0, look_type_ex: 0x0102, ..looks };
    let mut o = OutputMessage::new();
    write_creature_outfit(&mut o, ClientVersion::V860, 9, &item_look);
    assert_eq!(o.get_output_buffer(), &[0x8E, 9, 0, 0, 0, 0, 0, 2, 1]);
}

fn say_facts(speak_type: u8) -> SayFacts {
    SayFacts {
        speak_type,
        scripts_consumed: false,
        is_access: false,
        group_flags: 0,
        is_game_master: false,
        level: 10,
        is_premium: false,
        mute_seconds: 0,
        message_buffer_count: 0,
        max_message_buffer: 4,
        mute_count: None,
        yell_exhausted: false,
        yell_minimum_level: 2,
        yell_allow_premium: false,
        private_minimum_level: 1,
        premium_to_send_private: false,
        receiver_online: true,
    }
}

#[test]
fn saying_counts_messages_and_mutes_spam() {
    let d = decide_say(&say_facts(1), "hello");
    assert_eq!(d.action, SayAction::Say);
    assert_eq!(d.message_buffer_count, 1);
    assert!(d.reset_idle);
    assert_eq!(d.text, "hello");

    let mut f = say_facts(1);
    f.message_buffer_count = 4;
    let d = decide_say(&f, "spam");
    assert_eq!(d.action, SayAction::MutedNow { seconds: 5, ticks: 5000 });
    assert_eq!(d.message_buffer_count, 5);
    assert_eq!(d.mute_count, Some(2));
    assert!(!d.reset_idle);
    f.mute_count = Some(2);
    assert_eq!(decide_say(&f, "spam").action, SayAction::MutedNow { seconds: 20, ticks: 20000 });

    f.message_buffer_count = 6;
    let d = decide_say(&f, "again");
    assert_eq!(d.action, SayAction::Say);
    assert_eq!(d.message_buffer_count, 6);

    let mut f = say_facts(1);
    f.mute_seconds = 12;
    assert_eq!(decide_say(&f, "x").action, SayAction::StillMuted { seconds: 12 });
    f.group_flags = tfs_rust::world::groups::PLAYER_FLAG_CANNOT_BE_MUTED;
    let d = decide_say(&f, "x");
    assert_eq!(d.action, SayAction::Say);
    assert_eq!(d.message_buffer_count, 0);

    assert_eq!(decide_say(&say_facts(1), "").action, SayAction::Ignore);
    assert_eq!(decide_say(&say_facts(4), "hi").action, SayAction::NpcsOnly);
    let mut access = say_facts(1);
    access.is_access = true;
    let d = decide_say(&access, "/goto x");
    assert_eq!(d.action, SayAction::Ignore);
    assert!(!d.reset_idle);
    let mut consumed = say_facts(1);
    consumed.scripts_consumed = true;
    assert_eq!(decide_say(&consumed, "utevo lux").action, SayAction::Ignore);
}

#[test]
fn yelling_private_messages_and_other_classes() {
    let d = decide_say(&say_facts(3), "hey you");
    assert_eq!(d.action, SayAction::Yell { exhaust: true });
    assert_eq!(d.text, "HEY YOU");
    let mut low = say_facts(3);
    low.level = 1;
    assert_eq!(decide_say(&low, "a").action, SayAction::YellRefused { min_level: 2, premium: false });
    low.yell_allow_premium = true;
    low.is_premium = true;
    assert_eq!(decide_say(&low, "a").action, SayAction::Yell { exhaust: true });
    low.is_access = true;
    assert_eq!(decide_say(&low, "a").action, SayAction::Yell { exhaust: false });
    low.yell_exhausted = true;
    assert_eq!(decide_say(&low, "a").action, SayAction::Exhausted);

    assert_eq!(decide_say(&say_facts(2), "psst").action, SayAction::Whisper);
    assert_eq!(decide_say(&say_facts(6), "hi").action, SayAction::Private { speak_type: 6 });
    let mut gm = say_facts(6);
    gm.is_game_master = true;
    assert_eq!(decide_say(&gm, "hi").action, SayAction::Private { speak_type: 14 });
    let mut red = say_facts(14);
    red.is_game_master = true;
    assert_eq!(decide_say(&red, "hi").action, SayAction::Private { speak_type: 6 });
    let mut offline = say_facts(6);
    offline.receiver_online = false;
    assert_eq!(decide_say(&offline, "hi").action, SayAction::ReceiverOffline);
    let mut young = say_facts(6);
    young.level = 0;
    young.premium_to_send_private = true;
    assert_eq!(decide_say(&young, "hi").action, SayAction::PrivateRefused { min_level: 1, premium: true });

    let d = decide_say(&say_facts(12), "all");
    assert_eq!(d.action, SayAction::Ignore);
    assert!(d.reset_idle);
    let mut broadcaster = say_facts(12);
    broadcaster.group_flags = tfs_rust::world::groups::PLAYER_FLAG_CAN_BROADCAST;
    assert_eq!(decide_say(&broadcaster, "all").action, SayAction::Broadcast);
    assert_eq!(decide_say(&say_facts(7), "c").action, SayAction::Channel);
    assert_eq!(decide_say(&say_facts(99), "c").action, SayAction::Ignore);

    let a = Position { x: 10, y: 10, z: 7 };
    assert_eq!(whispered_text(a, Position { x: 11, y: 9, z: 7 }, "secret"), "secret");
    assert_eq!(whispered_text(a, Position { x: 12, y: 10, z: 7 }, "secret"), "pspsps");
}

#[test]
fn packets_before_the_session_is_accepted_are_ignored() {
    let mut m = incoming(&[0x65]);
    assert_eq!(receive_client_request(&mut m, ClientVersion::V860, false), None);
    assert_eq!(
        receive_client_request(&mut m, ClientVersion::V860, true),
        Some(ClientRequest::Walk(Direction::North))
    );
}
