use ros2_client::gid::{Gid, GID_LENGTH};
use rustdds::GUID;

fn sample_bytes() -> [u8; 16] {
    [0x01, 0x0f, 0x10, 0xab, 0xff, 0x00, 0x7e, 0x80, 0x09, 0x0a, 0xcd, 0xef, 0x12, 0x34, 0x56, 0xc1]
}

#[test]
fn gid_is_sixteen_bytes_for_the_build() {
    assert_eq!(GID_LENGTH, 16);
}

#[test]
fn gid_from_guid_bytes_keeps_the_bytes() {
    let g = Gid::from_guid_bytes(sample_bytes());
    assert_eq!(g.0, sample_bytes());
    assert_eq!(g.guid_bytes(), sample_bytes());
}

#[test]
fn gid_hex_string_is_two_lower_case_digits_per_byte() {
    let g = Gid::from_guid_bytes(sample_bytes());
    assert_eq!(g.to_hex_string(), "010f10abff007e80090acdef123456c1");
    let zero = Gid::from_guid_bytes([0u8; 16]);
    assert_eq!(zero.to_hex_string(), "00000000000000000000000000000000");
}

#[test]
fn gid_from_guid_takes_the_guid_bytes() {
    let guid = GUID::from_bytes(sample_bytes());
    let g = Gid::from_guid(&guid);
    assert_eq!(g.0, sample_bytes());
    assert_ne!(g.0, [0u8; 16]);
}

#[test]
fn gid_to_guid_round_trips() {
    let g = Gid::from_guid_bytes(sample_bytes());
    let guid = g.to_guid();
    assert_eq!(guid.to_bytes(), sample_bytes());
    assert!(Gid::from_guid(&guid) == g);
}

#[test]
fn gids_compare_by_bytes() {
    let a = Gid::from_guid_bytes(sample_bytes());
    let mut other = sample_bytes();
    other[15] = 0;
    let b = Gid::from_guid_bytes(other);
    assert!(a != b);
    assert!(b < a);
}

#[test]
fn guid_to_gid_and_back_is_the_same_guid() {
    let guid = GUID::from_bytes(sample_bytes());
    let back = Gid::from_guid(&guid).to_guid();
    assert_eq!(back, guid);
}
