use ownable_std::color::{derive_rgb_values, get_random_color, rgb_hex};
use ownable_std::types::{EmptyQuerier, Metadata};

#[test]
fn rgb_hex_is_uppercase() {
    assert_eq!(rgb_hex(255, 0, 16), "#FF0010");
    assert_eq!(rgb_hex(0, 0, 0), "#000000");
}

#[test]
fn color_takes_last_bytes_reversed() {
    assert_eq!(derive_rgb_values("0x123456".to_string()), (0x56, 0x34, 0x12));
    assert_eq!(get_random_color("0x123456".to_string()), "#563412");
    assert_eq!(get_random_color("aabbccddeeff".to_string()), "#FFEEDD");
}

#[test]
fn color_pads_odd_length() {
    assert_eq!(derive_rgb_values("abc".to_string()), (0xbc, 0x0a, 0));
}

#[test]
fn color_trims_and_strips_prefixes() {
    assert_eq!(derive_rgb_values(" \t0x0xff\n".to_string()), (0xff, 0, 0));
}

#[test]
fn color_of_non_hex_is_black() {
    assert_eq!(derive_rgb_values("xyz".to_string()), (0, 0, 0));
    assert_eq!(get_random_color("".to_string()), "#000000");
}

#[test]
fn plain_types_have_defaults() {
    let m = Metadata::default();
    assert_eq!(m.name, None);
    let _q = EmptyQuerier::default();
}
