use tfs_rust::net::connection::{
    check_checksum, on_first_message, on_frame, ConnState, FirstAction, FrameAction,
    MAX_PACKETS_PER_SECOND, RATE_WINDOW_NANOS,
};
use tfs_rust::net::message::NetworkMessage;
use tfs_rust::net::server::{ProtocolKind, ServiceInfo};
use tfs_rust::util::adler_checksum;

fn services() -> Vec<ServiceInfo> {
    vec![
        ServiceInfo { protocol_id: 0x01, checksummed: true, server_sends_first: false, kind: ProtocolKind::Login },
        ServiceInfo { protocol_id: 0xFF, checksummed: false, server_sends_first: false, kind: ProtocolKind::Status },
    ]
}

fn message_with(body: &[u8]) -> NetworkMessage {
    let mut msg = NetworkMessage::new();
    msg.write_body(body);
    msg.set_length(body.len() as u16);
    msg
}

#[test]
fn frames_of_bad_length_close_the_connection() {
    let s = ConnState::new();
    assert_eq!(on_frame(s, &[0, 0], 0).1, FrameAction::Close);
    assert_eq!(on_frame(s, &[0xFF, 0xFF], 0).1, FrameAction::Close);
    let (next, action) = on_frame(s, &[0x0A, 0x01], 5);
    assert_eq!(action, FrameAction::ReadBody { length: 266 });
    assert_eq!(next.packet_count, 1);
    assert_eq!(next.window_start_nanos, 0);
}

#[test]
fn too_many_packets_in_a_second_close_the_connection() {
    let mut s = ConnState::new();
    for i in 0..MAX_PACKETS_PER_SECOND {
        let (next, action) = on_frame(s, &[4, 0], u64::from(i));
        assert_eq!(action, FrameAction::ReadBody { length: 4 });
        s = next;
    }
    assert_eq!(on_frame(s, &[4, 0], 100).1, FrameAction::Close);
    let (fresh, action) = on_frame(s, &[4, 0], RATE_WINDOW_NANOS);
    assert_eq!(action, FrameAction::ReadBody { length: 4 });
    assert_eq!(fresh.packet_count, 1);
    assert_eq!(fresh.window_start_nanos, RATE_WINDOW_NANOS);
}

#[test]
fn first_message_with_matching_checksum_chooses_its_service() {
    let mut body = vec![0u8; 20];
    body[4] = 0x01;
    for (i, b) in body.iter_mut().enumerate().skip(5) {
        *b = i as u8;
    }
    let checksum = adler_checksum(&body[4..]);
    body[..4].copy_from_slice(&checksum.to_le_bytes());
    let mut msg = message_with(&body);
    assert_eq!(on_first_message(&mut msg, 20, &services(), false), FirstAction::Choose { service: 0 });
    assert_eq!(msg.get_buffer_position(), 7);
    assert_eq!(msg.get_byte(), 5);
}

#[test]
fn first_message_with_wrong_checksum_reads_the_id_at_the_body_start() {
    let mut body = vec![0u8; 20];
    body[0] = 0xFF;
    body[4] = 0x01;
    let mut msg = message_with(&body);
    assert_eq!(on_first_message(&mut msg, 20, &services(), false), FirstAction::Choose { service: 1 });
    let mut body = vec![0u8; 20];
    body[0] = 0x01;
    let mut msg = message_with(&body);
    assert_eq!(on_first_message(&mut msg, 20, &services(), false), FirstAction::Close);
}

#[test]
fn preassigned_protocol_skips_the_id_byte() {
    let body = vec![7u8; 12];
    let mut msg = message_with(&body);
    assert_eq!(on_first_message(&mut msg, 12, &services(), true), FirstAction::Preassigned);
    assert_eq!(msg.get_buffer_position(), 3);
    let mut msg = message_with(&body);
    assert!(!check_checksum(&mut msg, 12));
    assert_eq!(msg.get_buffer_position(), 2);
}

#[test]
fn checksum_covers_the_whole_body_after_it() {
    let payload: Vec<u8> = (0u8..30).collect();
    let mut body = adler_checksum(&payload).to_le_bytes().to_vec();
    body.extend_from_slice(&payload);
    let mut msg = message_with(&body);
    assert!(check_checksum(&mut msg, body.len()));
    assert_eq!(msg.get_buffer_position(), 6);
    let mut tampered = body.clone();
    *tampered.last_mut().unwrap() ^= 1;
    let mut msg = message_with(&tampered);
    assert!(!check_checksum(&mut msg, tampered.len()));
}
