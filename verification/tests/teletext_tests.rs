use ebustl::legacy::{decode_legacy, encode_legacy};
use ebustl::teletext::{decode_text_field, encode_text_field};
use ebustl::CharacterCodeTable;

const ALL_TABLES: [CharacterCodeTable; 5] = [
    CharacterCodeTable::Latin,
    CharacterCodeTable::LatinCyrillic,
    CharacterCodeTable::LatinArabic,
    CharacterCodeTable::LatinGreek,
    CharacterCodeTable::LatinHebrew,
];

#[test]
fn encoded_field_is_always_112_bytes() {
    let long: String = "x".repeat(500);
    for cct in ALL_TABLES {
        for dh in [false, true] {
            for txt in ["", "short", long.as_str()] {
                let (field, _) = encode_text_field(txt, dh, cct);
                assert_eq!(field.len(), 112);
            }
        }
    }
}

#[test]
fn frame_layout_of_a_short_text() {
    let (field, fit) = encode_text_field("A", false, CharacterCodeTable::Latin);
    assert!(fit);
    assert_eq!(&field[..6], &[0x0b, 0x0b, b'A', 0x0a, 0x0a, 0x8a]);
    assert!(field[6..].iter().all(|&b| b == 0x8f));

    let (field, fit) = encode_text_field("A", true, CharacterCodeTable::Latin);
    assert!(fit);
    assert_eq!(&field[..7], &[0x0d, 0x0b, 0x0b, b'A', 0x0a, 0x0a, 0x8a]);
    assert!(field[7..].iter().all(|&b| b == 0x8f));
}

#[test]
fn ascii_text_within_budget_round_trips_losslessly() {
    // Without double height the lead takes 2 bytes, so 107 content bytes fit.
    let txt: String = "abcdefghij".repeat(10).chars().take(107).collect();
    for cct in ALL_TABLES {
        let (field, fit) = encode_text_field(&txt, false, cct);
        assert!(fit);
        let back = decode_text_field(&field, cct);
        assert_eq!(back, format!("{}\r\n", txt));
    }
}

#[test]
fn overlong_text_is_truncated_to_a_clean_prefix() {
    let txt: String = "0123456789".repeat(20); // 200 characters
    let (field, fit) = encode_text_field(&txt, false, CharacterCodeTable::Latin);
    assert!(!fit);
    assert_eq!(field.len(), 112);
    let back = decode_text_field(&field, CharacterCodeTable::Latin);
    assert_eq!(back, format!("{}\r\n", &txt[..107]));

    // With double height one more lead byte eats into the budget.
    let (field, fit) = encode_text_field(&txt, true, CharacterCodeTable::Latin);
    assert!(!fit);
    let back = decode_text_field(&field, CharacterCodeTable::Latin);
    assert_eq!(back, format!("{}\r\n", &txt[..106]));
}

#[test]
fn decoding_stops_at_the_first_terminator() {
    let mut field = vec![0x0b, 0x0b, b'A', b'B', 0x0a, 0x0a, 0x8a, 0x8f];
    // Garbage after the terminator must not reach the result.
    field.extend_from_slice(&[b'Z', 0x8a, b'Q', 0x01, 0xff]);
    while field.len() < 112 {
        field.push(b'Z');
    }
    let got = decode_text_field(&field, CharacterCodeTable::Latin);
    assert_eq!(got, "AB\r\n");

    // A terminator right after content still flushes that content first.
    let mut field = vec![0x0b, 0x0b, b'A', 0x8f];
    field.extend_from_slice(&[b'Z'; 40]);
    while field.len() < 112 {
        field.push(0x8a);
    }
    let got = decode_text_field(&field, CharacterCodeTable::Latin);
    assert_eq!(got, "A");
}

#[test]
fn legacy_round_trip_on_ascii_for_every_table() {
    let txt = "Hello, world! 0123456789 <>&";
    for cct in ALL_TABLES {
        let bytes = encode_legacy(cct, txt);
        assert_eq!(bytes.len(), txt.len());
        let back = decode_legacy(cct, &bytes);
        assert_eq!(back, txt);
    }
}

#[test]
fn cyrillic_encodes_through_the_table() {
    let bytes = encode_legacy(CharacterCodeTable::LatinCyrillic, "Привет!");
    assert_eq!(bytes, vec![0xbf, 0xe0, 0xd8, 0xd2, 0xd5, 0xe2, 0x21]);
    let back = decode_legacy(CharacterCodeTable::LatinCyrillic, &bytes);
    assert_eq!(back, "Привет!");
}
