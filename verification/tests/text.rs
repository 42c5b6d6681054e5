use avatar_backend::{
    avatar_file, calculate_file_sha256, format_uuid, generate_hex_string, listen_port, to_hex,
    InvalidUuid, ALTERNATE_PORT, DEFAULT_PORT,
};

fn is_lower_hex(text: &str) -> bool {
    text.chars().all(|c| matches!(c, '0'..='9' | 'a'..='f'))
}

#[test]
fn hex_string_has_the_requested_length() {
    assert_eq!(generate_hex_string(32).len(), 32);
    assert_eq!(generate_hex_string(16).len(), 16);
    assert_eq!(generate_hex_string(2).len(), 2);
}

#[test]
fn hex_string_of_length_zero_is_empty() {
    assert_eq!(generate_hex_string(0), "");
}

#[test]
fn hex_string_of_odd_length_drops_the_half_byte() {
    assert_eq!(generate_hex_string(33).len(), 32);
    assert_eq!(generate_hex_string(1).len(), 0);
}

#[test]
fn hex_string_is_lowercase_hex() {
    for _ in 0..200 {
        let id = generate_hex_string(32);
        assert!(is_lower_hex(&id), "{}", id);
    }
}

#[test]
fn hex_strings_differ_from_call_to_call() {
    let first = generate_hex_string(32);
    let second = generate_hex_string(32);
    assert_ne!(first, second);
}

#[test]
fn hex_string_draws_every_digit() {
    let mut seen = [false; 16];
    for _ in 0..400 {
        for c in generate_hex_string(32).chars() {
            seen[c.to_digit(16).unwrap() as usize] = true;
        }
    }
    assert!(seen.iter().all(|s| *s));
}

#[test]
fn to_hex_writes_two_digits_per_byte() {
    assert_eq!(to_hex(&[1, 2, 3, 15, 16]), "0102030f10");
    assert_eq!(to_hex(&[0x00, 0xff, 0xa0, 0x0a]), "00ffa00a");
    assert_eq!(to_hex(&[]), "");
}

#[test]
fn to_hex_agrees_with_the_hex_crate_on_every_byte() {
    let all: Vec<u8> = (0..=255).collect();
    assert_eq!(to_hex(&all), hex::encode(&all));
}

#[test]
fn format_uuid_hyphenates_the_compact_form() {
    assert_eq!(
        format_uuid("069a79f444e94726a5befca90e38aaf5".to_string()),
        Ok("069a79f4-44e9-4726-a5be-fca90e38aaf5".to_string())
    );
}

#[test]
fn format_uuid_keeps_the_hyphenated_form() {
    assert_eq!(
        format_uuid("74cf2ba3-f346-4dfe-b3b5-f453b9f5cc5e".to_string()),
        Ok("74cf2ba3-f346-4dfe-b3b5-f453b9f5cc5e".to_string())
    );
}

#[test]
fn format_uuid_lowers_the_case() {
    assert_eq!(
        format_uuid("A1A2A3A4B1B2C1C2D1D2D3D4D5D6D7D8".to_string()),
        Ok("a1a2a3a4-b1b2-c1c2-d1d2-d3d4d5d6d7d8".to_string())
    );
}

#[test]
fn format_uuid_keeps_leading_zeros() {
    assert_eq!(
        format_uuid("00000000000000000000000000000001".to_string()),
        Ok("00000000-0000-0000-0000-000000000001".to_string())
    );
}

#[test]
fn format_uuid_refuses_what_is_no_uuid() {
    assert_eq!(format_uuid("".to_string()), Err(InvalidUuid));
    assert_eq!(format_uuid("deadbeef".to_string()), Err(InvalidUuid));
    assert_eq!(format_uuid("069a79f444e94726a5befca90e38aaf".to_string()), Err(InvalidUuid));
    assert_eq!(format_uuid("069a79f444e94726a5befca90e38aafg".to_string()), Err(InvalidUuid));
}

#[test]
fn avatar_file_is_under_avatars() {
    assert_eq!(
        avatar_file("74cf2ba3-f346-4dfe-b3b5-f453b9f5cc5e"),
        "avatars/74cf2ba3-f346-4dfe-b3b5-f453b9f5cc5e.moon"
    );
    assert_eq!(avatar_file(""), "avatars/.moon");
}

#[test]
fn fingerprint_of_known_content() {
    assert_eq!(
        calculate_file_sha256(b"hello"),
        "333d6b3a3c1f5db6c9bdda5939b136986d170f4649172a68368d54ecb44c2ff2"
    );
    assert_eq!(
        calculate_file_sha256(b"hello world"),
        "dc9c1c09907c36f5379d615ae61c02b46ba254d92edb77cb63bdcc5247ccd01c"
    );
}

#[test]
fn fingerprint_of_empty_content() {
    assert_eq!(
        calculate_file_sha256(b""),
        "e3b0c44298fc1c149afbf4c8996fb92427ae41e4649b934ca495991b7852b855"
    );
}

#[test]
fn fingerprint_of_every_byte() {
    let all: Vec<u8> = (0..=255).collect();
    assert_eq!(
        calculate_file_sha256(&all),
        "ab7727e21f4bbba6508dd72804d97435a78eb44a1e277af1c0f65a8522de382e"
    );
}

#[test]
fn fingerprint_is_64_lowercase_hex_digits() {
    let print = calculate_file_sha256(&[7u8; 1000]);
    assert_eq!(print.len(), 64);
    assert!(is_lower_hex(&print));
}

#[test]
fn port_is_8080_by_default() {
    assert_eq!(DEFAULT_PORT, 8080);
    assert_eq!(listen_port(&vec![]), 8080);
    assert_eq!(listen_port(&vec!["server".to_string(), "p8082".to_string()]), 8080);
}

#[test]
fn port_is_8081_on_request() {
    assert_eq!(ALTERNATE_PORT, 8081);
    assert_eq!(listen_port(&vec!["server".to_string(), "p8081".to_string()]), 8081);
    assert_eq!(listen_port(&vec!["p8081".to_string(), "x".to_string()]), 8081);
}
