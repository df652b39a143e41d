use tfs_rust::net::message::{NetworkMessage, Position};

#[test]
fn add_and_get_primitives_should_use_little_endian_layout() {
    let mut message = NetworkMessage::new();

    message.add_byte(0x12);
    message.add_u16(0x3456);
    message.add_u32(0x789A_BCDE);
    message.set_buffer_position(0);
    message.set_length(7);

    assert_eq!(message.get_byte(), 0x12);
    assert_eq!(message.get_u16(), 0x3456);
    assert_eq!(message.get_u32(), 0x789A_BCDE);
}

#[test]
fn add_and_get_string_should_round_trip_bytes() {
    let mut message = NetworkMessage::new();

    message.add_string(b"Tibia");
    message.set_buffer_position(0);
    message.set_length(7);

    assert_eq!(message.get_string(None), b"Tibia");
}

#[test]
fn get_position_should_read_expected_wire_layout() {
    let mut message = NetworkMessage::new();
    let position = Position { x: 100, y: 200, z: 7 };

    message.add_position(position);
    message.set_buffer_position(0);
    message.set_length(5);

    assert_eq!(message.get_position(), position);
}

#[test]
fn reading_past_the_available_body_should_set_overrun() {
    let mut message = NetworkMessage::new();
    message.set_length(0);

    assert_eq!(message.get_byte(), 0);
    assert!(message.is_overrun());
}

#[test]
fn written_bytes_land_little_endian_in_the_buffer() {
    let mut message = NetworkMessage::new();
    message.add_u16(0x0102);
    message.add_u64(0x0807_0605_0403_0201);
    assert_eq!(&message.buffer()[8..10], &[0x02, 0x01]);
    assert_eq!(&message.buffer()[10..18], &[1, 2, 3, 4, 5, 6, 7, 8]);
    assert_eq!(message.get_length(), 10);
    assert_eq!(message.get_buffer_position(), 18);
}

#[test]
fn u64_round_trips_through_the_buffer() {
    let mut message = NetworkMessage::new();
    message.add_u64(0xDEAD_BEEF_0123_4567);
    message.set_buffer_position(0);
    assert_eq!(message.get_u64(), 0xDEAD_BEEF_0123_4567);
    assert!(!message.is_overrun());
}

#[test]
fn oversized_byte_strings_are_dropped() {
    let mut message = NetworkMessage::new();
    let big = vec![7u8; 8193];
    message.add_bytes(&big);
    assert_eq!(message.get_length(), 0);
    message.add_string(&big);
    assert_eq!(message.get_length(), 0);
}

#[test]
fn padding_grows_the_body_without_moving_the_cursor() {
    let mut message = NetworkMessage::new();
    message.add_padding_bytes(3);
    assert_eq!(message.get_length(), 3);
    assert_eq!(message.get_buffer_position(), 8);
    assert_eq!(&message.buffer()[8..11], &[0x33, 0x33, 0x33]);
}

#[test]
fn given_string_length_reads_without_prefix() {
    let mut message = NetworkMessage::new();
    message.add_bytes(b"abc");
    message.set_buffer_position(0);
    assert_eq!(message.get_string(Some(2)), b"ab");
    assert_eq!(message.get_string(Some(5)), b"");
    assert!(message.is_overrun());
}

#[test]
fn set_buffer_position_refuses_the_buffer_end() {
    let mut message = NetworkMessage::new();
    assert!(!message.set_buffer_position(65492));
    assert!(message.set_buffer_position(65491));
    assert_eq!(message.get_buffer_position(), 65499);
}

#[test]
fn previous_byte_and_skip_move_the_cursor() {
    let mut message = NetworkMessage::new();
    message.add_byte(9);
    assert_eq!(message.get_previous_byte(), 9);
    message.skip_bytes(3);
    assert_eq!(message.get_buffer_position(), 11);
    message.reset();
    assert_eq!(message.get_buffer_position(), 8);
    assert_eq!(message.get_length(), 0);
}

#[test]
fn length_header_reads_the_first_two_bytes() {
    let message = NetworkMessage::new();
    assert_eq!(message.get_length_header(), 0);
}
