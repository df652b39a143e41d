use tfs_rust::util::text::{chars_of, drop_white_space_end, skip_white_space};
use tfs_rust::util::date::format_date_short;
use tfs_rust::util::{
    adler_checksum, client_fluid_to_server, get_milliseconds_time, random_range,
    server_fluid_to_client, uniform_random,
};

#[test]
fn adler_checksum_should_match_the_upstream_value() {
    assert_eq!(adler_checksum(b"abc"), 38_600_999);
}

#[test]
fn get_milliseconds_time_should_return_a_positive_epoch_value() {
    assert!(get_milliseconds_time() > 0);
}

#[test]
fn random_range_should_swap_bounds_when_they_are_reversed() {
    let value = random_range(5, 1);

    assert!((1..=5).contains(&value));
}

#[test]
fn adler_checksum_of_empty_input_is_one() {
    assert_eq!(adler_checksum(b""), 1);
}

#[test]
fn adler_checksum_over_several_chunks_matches_the_reference() {
    let data: Vec<u8> = (0..20000u32).map(|i| (i % 251) as u8).collect();
    let mut a: u64 = 1;
    let mut b: u64 = 0;
    for &byte in &data {
        a = (a + byte as u64) % 65521;
        b = (b + a) % 65521;
    }
    assert_eq!(adler_checksum(&data), ((b << 16) | a) as u32);
}

#[test]
fn adler_checksum_refuses_oversized_input() {
    let data = vec![1u8; 65501];
    assert_eq!(adler_checksum(&data), 0);
}

#[test]
fn fluid_ids_map_both_ways() {
    assert_eq!(client_fluid_to_server(2), 7);
    assert_eq!(client_fluid_to_server(18), 0);
    assert_eq!(server_fluid_to_client(7), 2);
    assert_eq!(server_fluid_to_client(27), 4);
    assert_eq!(server_fluid_to_client(200), 0);
}

#[test]
fn uniform_random_returns_the_lower_bound_on_empty_ranges() {
    assert_eq!(uniform_random(9, 3), 9);
    let v = uniform_random(1, 3);
    assert!((1..=3).contains(&v));
}

#[test]
fn short_dates_of_unix_times() {
    assert_eq!(format_date_short(0), "01 Jan 1970");
    assert_eq!(format_date_short(86399), "01 Jan 1970");
    assert_eq!(format_date_short(951_782_400), "29 Feb 2000");
    assert_eq!(format_date_short(1_700_000_000), "14 Nov 2023");
    assert_eq!(format_date_short(1_709_251_199), "29 Feb 2024");
    assert_eq!(format_date_short(u32::MAX), "07 Feb 2106");
}

#[test]
fn white_space_is_the_unicode_white_space_set() {
    let chars = chars_of("\u{3000}\u{85}\t x\u{a0}y\u{2029}\u{200b}");
    let n = chars.len();
    assert_eq!(skip_white_space(&chars, 0, n), 4);
    assert_eq!(drop_white_space_end(&chars, 0, n), n);
    assert_eq!(drop_white_space_end(&chars, 0, n - 1), n - 2);
    for c in ['\u{9}', '\u{d}', ' ', '\u{1680}', '\u{2000}', '\u{200a}', '\u{2028}', '\u{202f}', '\u{205f}'] {
        let one = vec![c];
        assert_eq!(skip_white_space(&one, 0, 1), 1, "{c:?}");
        assert!(c.is_whitespace());
    }
}
