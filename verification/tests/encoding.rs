use ducky_core::checksum::{hex_dump, payload_checksum, raw_checksum, version_label};
use ducky_core::encoder::{
    append_hex_string_array, build_delay_bytes, dec_to_hex, format_hex, hex_encode,
    hex_to_byte_array, normalize_var_value, swap_hex,
};

#[test]
fn hex_encode_is_little_endian() {
    assert_eq!(hex_encode(0x1234), "3412");
    assert_eq!(hex_encode(0x00FF), "ff00");
}

#[test]
fn dec_to_hex_pads_to_four_digits() {
    assert_eq!(dec_to_hex(255), "00ff");
    assert_eq!(dec_to_hex(0), "0000");
    assert_eq!(dec_to_hex(0x12345), "12345");
}

#[test]
fn swap_hex_swaps_the_bytes() {
    assert_eq!(swap_hex("1234"), "3412");
    assert_eq!(swap_hex("12"), "12");
}

#[test]
fn format_hex_strips_prefix_and_lowers() {
    assert_eq!(format_hex("0xABcd"), "abcd");
    assert_eq!(format_hex("0x0X1F"), "1f");
    assert_eq!(format_hex("0X0x1F"), "0x1f");
}

#[test]
fn delay_bytes() {
    assert_eq!(build_delay_bytes(300), vec!["00", "FF", "00", "2d"]);
    assert_eq!(build_delay_bytes(255), vec!["00", "ff"]);
    assert!(build_delay_bytes(0).is_empty());
}

#[test]
fn append_tokens_as_bytes() {
    let mut out = Vec::new();
    let r = append_hex_string_array(&mut out, vec!["0a".to_string(), "1234".to_string(), "zz".to_string()]);
    assert!(r.is_ok());
    assert_eq!(out, vec![0x0a, 0x12, 0x34, 0x00]);
}

#[test]
fn normalize_pads_values() {
    assert_eq!(normalize_var_value("ab"), (0x00, 0xab));
    assert_eq!(normalize_var_value("1"), (0x00, 0x01));
    assert_eq!(normalize_var_value("123456"), (0x12, 0x34));
    assert_eq!(normalize_var_value("123"), (0x12, 0x30));
}

#[test]
fn hex_text_to_bytes() {
    assert_eq!(hex_to_byte_array("0a 0b ff"), vec![0x0a, 0x0b, 0xff]);
    assert_eq!(hex_to_byte_array("0azz0b1"), vec![0x0a, 0x0b]);
}

#[test]
fn hex_dump_of_payload() {
    assert_eq!(hex_dump(&[0xab, 0x01]), "ab01");
    assert_eq!(hex_dump(&[]), "");
}

#[test]
fn checksum_of_empty_payload() {
    assert_eq!(
        payload_checksum(&[]),
        "e3b0c44298fc1c149afbf4c8996fb92427ae41e4649b934ca495991b7852b855"
    );
}

#[test]
fn checksum_has_64_digits() {
    assert_eq!(payload_checksum(&[1, 2, 3]).len(), 64);
    assert_ne!(payload_checksum(&[1, 2, 3]), payload_checksum(&[1, 2, 4]));
}

#[test]
fn version_labels() {
    assert_eq!(version_label(true), "DuckyScript 3.0");
    assert_eq!(version_label(false), "DuckyScript 1.0");
}

#[test]
fn law_hex_dump_reads_back_on_values() {
    let b = vec![0u8, 1, 127, 128, 255];
    assert_eq!(hex_to_byte_array(&hex_dump(&b)), b);
}

#[test]
fn law_swap_twice_on_values() {
    assert_eq!(swap_hex(&swap_hex("a1b2")), "a1b2");
}

#[test]
fn law_delay_sum_on_values() {
    let toks = build_delay_bytes(1000);
    let mut out = Vec::new();
    append_hex_string_array(&mut out, toks).unwrap();
    let sum: u32 = out.iter().map(|b| *b as u32).sum();
    assert_eq!(sum, 1000);
    assert_eq!(out.len(), 2 * 4);
}

#[test]
fn law_swapping_big_endian_hex_gives_little_endian() {
    for v in [0u16, 0x0F, 0xAB, 0x0123, 0x1234, 0xFFFF] {
        assert_eq!(swap_hex(&dec_to_hex(v as usize)), hex_encode(v));
    }
    assert_eq!(swap_hex(&dec_to_hex(0x0A0B)), "0b0a");
}

#[test]
fn law_swap_hex_leaves_short_strings() {
    assert_eq!(swap_hex(""), "");
    assert_eq!(swap_hex("a"), "a");
    assert_eq!(swap_hex("abc"), "abc");
}

#[test]
fn hex_text_is_read_two_bytes_at_a_time() {
    assert_eq!(hex_to_byte_array("éab"), vec![0xab]);
    assert_eq!(hex_to_byte_array("0aé0b"), vec![0x0a, 0x0b]);
}

#[test]
fn normalize_counts_bytes() {
    assert_eq!(normalize_var_value("é"), (0x00, 0x00));
    assert_eq!(normalize_var_value("éa"), (0x00, 0xa0));
    assert_eq!(normalize_var_value("0aé"), (0x0a, 0x00));
}

#[test]
fn append_cuts_strings_at_bytes() {
    let mut out = Vec::new();
    let r = append_hex_string_array(&mut out, vec!["é".to_string(), "éé".to_string(), "ab".to_string()]);
    assert!(r.is_ok());
    assert_eq!(out, vec![0x00, 0x00, 0x00, 0xab]);
}

#[test]
fn raw_checksum_is_sha256_of_the_bytes() {
    assert_eq!(
        raw_checksum(&[]),
        "e3b0c44298fc1c149afbf4c8996fb92427ae41e4649b934ca495991b7852b855"
    );
    assert_eq!(
        raw_checksum(b"abc"),
        "ba7816bf8f01cfea414140de5dae2223b00361a396177a9cb410ff61f20015ad"
    );
}
