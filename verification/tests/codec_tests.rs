use green_spaces::codec::{texts_fit_in_record, FIXED_SIZE, MAX_SIZE};
use green_spaces::record::{validate_green_space, GreenSpace, GreenSpaceUpdatePayload};

fn record(id: u64, name: &str, location: &str, description: &str) -> GreenSpace {
    GreenSpace {
        id,
        name: name.to_string(),
        location: location.to_string(),
        description: description.to_string(),
    }
}

fn sample_bytes() -> Vec<u8> {
    vec![
        0x47, 0x53, 0x52, 0x01, // header
        0x01, 0x01, 0x00, 0x00, 0x00, 0x00, 0x00, 0x00, 0x00, // id 1
        0x02, 0x01, 0x00, 0x41, // name "A"
        0x03, 0x01, 0x00, 0x42, // location "B"
        0x04, 0x01, 0x00, 0x43, // description "C"
    ]
}

#[test]
fn size_limits_are_as_documented() {
    assert_eq!(MAX_SIZE, 1024);
    assert_eq!(FIXED_SIZE, 22);
}

#[test]
fn encoding_of_a_small_record_is_exact() {
    assert_eq!(record(1, "A", "B", "C").to_bytes(), sample_bytes());
}

#[test]
fn encoding_writes_the_identifier_little_endian() {
    let bytes = record(0x0102030405060708, "", "", "").to_bytes();
    assert_eq!(
        bytes,
        vec![
            0x47, 0x53, 0x52, 0x01, 0x01, 0x08, 0x07, 0x06, 0x05, 0x04, 0x03, 0x02, 0x01, 0x02,
            0x00, 0x00, 0x03, 0x00, 0x00, 0x04, 0x00, 0x00,
        ]
    );
    assert_eq!(bytes.len(), FIXED_SIZE);
}

#[test]
fn encoding_writes_text_as_utf8_with_its_byte_length() {
    let bytes = record(2, "é", "€", "𝄞").to_bytes();
    assert_eq!(
        &bytes[13..],
        &[
            0x02, 0x02, 0x00, 0xC3, 0xA9, // é
            0x03, 0x03, 0x00, 0xE2, 0x82, 0xAC, // €
            0x04, 0x04, 0x00, 0xF0, 0x9D, 0x84, 0x9E, // 𝄞
        ]
    );
}

#[test]
fn encoding_writes_lengths_above_255_in_two_bytes() {
    let bytes = record(3, &"x".repeat(300), "", "").to_bytes();
    assert_eq!(&bytes[13..16], &[0x02, 0x2C, 0x01]);
    assert_eq!(bytes.len(), 22 + 300);
}

#[test]
fn decoding_of_exact_bytes_gives_the_record() {
    assert_eq!(GreenSpace::try_from_bytes(&sample_bytes()), Some(record(1, "A", "B", "C")));
    assert_eq!(GreenSpace::from_bytes(sample_bytes()), record(1, "A", "B", "C"));
}

#[test]
fn decode_after_encode_gives_the_record_back() {
    let samples = vec![
        record(0, "", "", ""),
        record(1, "Central Park", "NYC", "Big park"),
        record(u64::MAX, "Parc Güell", "Barcelona", "Gaudí — mosaics"),
        record(77, "上野公園", "東京", "桜の名所 🌸"),
        record(5, &"n".repeat(1002), "", ""),
        record(6, "", &"l".repeat(501), &"d".repeat(501)),
    ];
    for r in samples {
        assert!(r.fits());
        let bytes = r.to_bytes();
        assert!(bytes.len() <= MAX_SIZE);
        assert_eq!(GreenSpace::try_from_bytes(&bytes), Some(r.clone()));
        assert_eq!(GreenSpace::from_bytes(bytes), r);
    }
}

#[test]
fn encode_after_decode_gives_the_bytes_back() {
    let mut longer = sample_bytes();
    longer[14] = 3;
    longer.splice(17..17, vec![0xC3, 0xA9]);
    for bytes in vec![sample_bytes(), longer] {
        let r = GreenSpace::try_from_bytes(&bytes).expect("well-formed bytes decode");
        assert_eq!(r.to_bytes(), bytes);
    }
}

#[test]
fn decoding_rejects_bytes_that_are_too_short() {
    assert_eq!(GreenSpace::try_from_bytes(&[]), None);
    let bytes = sample_bytes();
    for len in 0..bytes.len() {
        assert_eq!(GreenSpace::try_from_bytes(&bytes[..len]), None);
    }
}

#[test]
fn decoding_rejects_trailing_bytes() {
    let mut bytes = sample_bytes();
    bytes.push(0);
    assert_eq!(GreenSpace::try_from_bytes(&bytes), None);
}

#[test]
fn decoding_rejects_a_wrong_header() {
    for at in 0..4 {
        let mut bytes = sample_bytes();
        bytes[at] ^= 0x20;
        assert_eq!(GreenSpace::try_from_bytes(&bytes), None);
    }
}

#[test]
fn decoding_rejects_a_wrong_tag() {
    for at in [4usize, 13, 17, 21] {
        let mut bytes = sample_bytes();
        bytes[at] = 9;
        assert_eq!(GreenSpace::try_from_bytes(&bytes), None);
    }
    let mut swapped = sample_bytes();
    swapped[13] = 3;
    swapped[17] = 2;
    assert_eq!(GreenSpace::try_from_bytes(&swapped), None);
}

#[test]
fn decoding_rejects_a_length_that_does_not_match() {
    let mut longer = sample_bytes();
    longer[14] = 2;
    assert_eq!(GreenSpace::try_from_bytes(&longer), None);
    let mut shorter = sample_bytes();
    shorter[22] = 0;
    assert_eq!(GreenSpace::try_from_bytes(&shorter), None);
    let mut huge = sample_bytes();
    huge[23] = 0xFF;
    assert_eq!(GreenSpace::try_from_bytes(&huge), None);
}

#[test]
fn decoding_rejects_text_that_is_not_utf8() {
    let mut bytes = sample_bytes();
    bytes[16] = 0xFF;
    assert_eq!(GreenSpace::try_from_bytes(&bytes), None);
    let mut cut = sample_bytes();
    cut[20] = 0xC3;
    assert_eq!(GreenSpace::try_from_bytes(&cut), None);
}

#[test]
fn decoding_rejects_bytes_beyond_the_size_limit() {
    let mut bytes = sample_bytes();
    bytes[14] = 0xE8;
    bytes[15] = 0x03;
    bytes.splice(17..17, vec![0x41; 999]);
    assert_eq!(bytes.len(), 1024);
    assert_eq!(
        GreenSpace::try_from_bytes(&bytes),
        Some(record(1, &"A".repeat(1000), "B", "C"))
    );
    bytes[14] = 0xE9;
    bytes.insert(17, 0x41);
    assert_eq!(bytes.len(), 1025);
    assert_eq!(GreenSpace::try_from_bytes(&bytes), None);
}

#[test]
fn fits_counts_bytes_not_characters() {
    assert!(texts_fit_in_record(&"a".repeat(1002), "", ""));
    assert!(!texts_fit_in_record(&"a".repeat(1003), "", ""));
    assert!(texts_fit_in_record(&"é".repeat(501), "", ""));
    assert!(!texts_fit_in_record(&"é".repeat(502), "", ""));
    assert!(texts_fit_in_record("", &"b".repeat(1002), ""));
    assert!(!texts_fit_in_record("", "", &"c".repeat(1003)));
    assert!(texts_fit_in_record(&"a".repeat(334), &"b".repeat(334), &"c".repeat(334)));
    assert!(!texts_fit_in_record(&"a".repeat(334), &"b".repeat(334), &"c".repeat(335)));
    assert!(!texts_fit_in_record(&"a".repeat(5000), &"b".repeat(5000), &"c".repeat(5000)));
}

#[test]
fn fits_of_record_and_payload_agree_with_the_texts() {
    let r = record(9, &"a".repeat(1000), "bc", "");
    assert!(r.fits());
    let too_long = record(9, &"a".repeat(1000), "bc", "d");
    assert!(!too_long.fits());
    let p = GreenSpaceUpdatePayload {
        name: "a".repeat(1000),
        location: "bc".to_string(),
        description: "d".to_string(),
    };
    assert!(!p.fits());
}

#[test]
fn validation_wants_all_three_texts_non_empty() {
    assert!(validate_green_space(&record(1, "a", "b", "c")));
    assert!(!validate_green_space(&record(1, "", "b", "c")));
    assert!(!validate_green_space(&record(1, "a", "", "c")));
    assert!(!validate_green_space(&record(1, "a", "b", "")));
    assert!(!validate_green_space(&record(1, "", "", "")));
    assert!(validate_green_space(&record(0, " ", " ", " ")));
}

#[test]
fn decoding_rejects_overlong_and_surrogate_text() {
    let mut overlong = sample_bytes();
    overlong[14] = 2;
    overlong.splice(16..17, vec![0xC0, 0x80]);
    assert_eq!(GreenSpace::try_from_bytes(&overlong), None);
    let mut surrogate = sample_bytes();
    surrogate[14] = 3;
    surrogate.splice(16..17, vec![0xED, 0xA0, 0x80]);
    assert_eq!(GreenSpace::try_from_bytes(&surrogate), None);
    let mut beyond = sample_bytes();
    beyond[14] = 4;
    beyond.splice(16..17, vec![0xF4, 0x90, 0x80, 0x80]);
    assert_eq!(GreenSpace::try_from_bytes(&beyond), None);
    let mut highest = sample_bytes();
    highest[14] = 4;
    highest.splice(16..17, vec![0xF4, 0x8F, 0xBF, 0xBF]);
    assert_eq!(
        GreenSpace::try_from_bytes(&highest),
        Some(record(1, "\u{10FFFF}", "B", "C"))
    );
}

#[test]
fn payload_validity_wants_all_three_texts_non_empty() {
    let full = GreenSpaceUpdatePayload {
        name: "a".to_string(),
        location: "b".to_string(),
        description: "c".to_string(),
    };
    assert!(full.is_valid());
    let mut no_name = full.clone();
    no_name.name = String::new();
    assert!(!no_name.is_valid());
    let mut no_location = full.clone();
    no_location.location = String::new();
    assert!(!no_location.is_valid());
    let mut no_description = full.clone();
    no_description.description = String::new();
    assert!(!no_description.is_valid());
}
