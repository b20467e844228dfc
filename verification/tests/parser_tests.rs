use ebustl::error::ParseError;
use ebustl::gsi::parse_gsi_block;
use ebustl::stl::parse_stl_from_slice;
use ebustl::tti::Time;

/// A valid 1024-byte header: code page 850, 25 fps, teletext level 1,
/// Latin character table, empty metadata, the given counters.
fn valid_header() -> Vec<u8> {
    let mut h: Vec<u8> = Vec::new();
    h.extend_from_slice(b"850");
    h.extend_from_slice(b"STL25.01");
    h.push(0x31);
    h.extend_from_slice(b"00");
    h.extend_from_slice(b"0F");
    while h.len() < 238 {
        h.push(0x20);
    }
    h.extend_from_slice(b"00002");
    h.extend_from_slice(b"00002");
    h.extend_from_slice(b"001");
    h.extend_from_slice(b"40");
    h.extend_from_slice(b"23");
    h.push(0x31);
    h.extend_from_slice(b"00000000");
    h.extend_from_slice(b"00000000");
    h.push(b'1');
    h.push(b'1');
    while h.len() < 1024 {
        h.push(0x20);
    }
    assert_eq!(h.len(), 1024);
    h
}

/// A valid 128-byte record with the given subtitle number and text "Hi".
fn valid_record(sn: u16) -> Vec<u8> {
    let mut r: Vec<u8> = Vec::new();
    r.push(0); // group number
    r.push((sn & 0xff) as u8);
    r.push((sn >> 8) as u8);
    r.push(0xff); // extension block number
    r.push(0); // cumulative status: not part of a set
    r.extend_from_slice(&[1, 2, 3, 4]); // time code in
    r.extend_from_slice(&[1, 2, 5, 6]); // time code out
    r.push(19); // vertical position
    r.push(2); // justification
    r.push(0); // comment flag
    r.extend_from_slice(&[0x0b, 0x0b, b'H', b'i', 0x0a, 0x0a, 0x8a]);
    while r.len() < 128 {
        r.push(0x8f);
    }
    assert_eq!(r.len(), 128);
    r
}

#[test]
fn test_parse_time() {
    let ok = &vec![0x1, 0x2, 0x3, 0x4];
    let incomplete = &vec![0x1];

    assert_eq!(
        Time::parse(ok),
        Ok(Time {
            hours: 1,
            minutes: 2,
            seconds: 3,
            frames: 4,
        })
    );
    assert_eq!(Time::parse(incomplete), Err(ParseError::Incomplete));
}

#[test]
fn unknown_code_page_number_fails_with_its_kind() {
    let mut h = valid_header();
    h[0] = b'9';
    h[1] = b'9';
    h[2] = b'9';
    let r = valid_record(1);
    let buf: Vec<u8> = h.iter().chain(r.iter()).cloned().collect();
    assert_eq!(parse_stl_from_slice(&buf).unwrap_err(), ParseError::CodePageNumber(999));
}

#[test]
fn non_digit_code_page_number_is_a_generic_failure() {
    let mut h = valid_header();
    h[1] = b'x';
    assert_eq!(parse_gsi_block(&h).unwrap_err(), ParseError::Unknown);
}

#[test]
fn header_without_any_record_fails() {
    let h = valid_header();
    assert!(parse_stl_from_slice(&h).is_err());
}

#[test]
fn short_buffer_is_incomplete() {
    let h = valid_header();
    assert_eq!(parse_stl_from_slice(&h[..500]).unwrap_err(), ParseError::Incomplete);
    assert_eq!(parse_stl_from_slice(&[]).unwrap_err(), ParseError::Incomplete);
}

#[test]
fn trailing_partial_record_is_incomplete() {
    let h = valid_header();
    let r = valid_record(1);
    let mut buf: Vec<u8> = h.iter().chain(r.iter()).cloned().collect();
    buf.extend_from_slice(&r[..50]);
    assert_eq!(parse_stl_from_slice(&buf).unwrap_err(), ParseError::Incomplete);
}

#[test]
fn bad_status_in_a_short_trailing_record_wins_over_incompleteness() {
    // The cumulative status byte sits at offset 4 and is validated as soon
    // as it is read, before the rest of the record is demanded.
    let h = valid_header();
    let r = valid_record(1);
    let mut buf: Vec<u8> = h.iter().chain(r.iter()).cloned().collect();
    let mut partial = r[..20].to_vec();
    partial[4] = 9;
    buf.extend_from_slice(&partial);
    assert_eq!(parse_stl_from_slice(&buf).unwrap_err(), ParseError::CumulativeStatus);
}

#[test]
fn two_records_parse_in_order_with_their_numbers() {
    let h = valid_header();
    let r1 = valid_record(7);
    let r2 = valid_record(42);
    let buf: Vec<u8> = h
        .iter()
        .chain(r1.iter())
        .chain(r2.iter())
        .cloned()
        .collect();
    let stl = parse_stl_from_slice(&buf).expect("two full records should parse");
    assert_eq!(stl.ttis.len(), 2);
    assert_eq!(stl.ttis[0].get_subtitle_number_range(), 7);
    assert_eq!(stl.ttis[1].get_subtitle_number_range(), 42);
    assert_eq!(stl.ttis[0].get_text(), "Hi\r\n");
}

#[test]
fn parsed_document_serializes_back_to_its_bytes() {
    let h = valid_header();
    let r1 = valid_record(1);
    let r2 = valid_record(2);
    let buf: Vec<u8> = h
        .iter()
        .chain(r1.iter())
        .chain(r2.iter())
        .cloned()
        .collect();
    let stl = parse_stl_from_slice(&buf).expect("document should parse");
    assert_eq!(stl.serialize(), buf);
}

#[test]
fn reparsing_a_serialized_document_reproduces_it() {
    let h = valid_header();
    let r = valid_record(3);
    let buf: Vec<u8> = h.iter().chain(r.iter()).cloned().collect();
    let stl = parse_stl_from_slice(&buf).expect("document should parse");
    let again = parse_stl_from_slice(&stl.serialize()).expect("round trip should parse");
    assert_eq!(again.ttis.len(), stl.ttis.len());
    assert_eq!(
        again.ttis[0].get_subtitle_number_range(),
        stl.ttis[0].get_subtitle_number_range()
    );
    assert_eq!(again.ttis[0].get_text(), stl.ttis[0].get_text());
    assert_eq!(
        again.gsi.get_total_number_of_subtitles(),
        stl.gsi.get_total_number_of_subtitles()
    );
    assert_eq!(again.serialize(), buf);
}

#[test]
fn bad_display_standard_code_fails_with_its_kind() {
    let mut h = valid_header();
    h[11] = 0x7f;
    assert_eq!(parse_gsi_block(&h).unwrap_err(), ParseError::DisplayStandardCode);
}

#[test]
fn bad_character_code_table_fails_with_its_kind() {
    let mut h = valid_header();
    h[13] = b'9';
    assert_eq!(parse_gsi_block(&h).unwrap_err(), ParseError::CharacterCodeTable);
}

#[test]
fn bad_disk_format_code_fails_with_the_offending_string() {
    let mut h = valid_header();
    h[6] = b'X';
    h[7] = b'X';
    assert_eq!(
        parse_gsi_block(&h).unwrap_err(),
        ParseError::DiskFormatCode("STLXX.01".to_string())
    );
}

#[test]
fn bad_time_code_status_fails_with_its_kind() {
    let mut h = valid_header();
    h[255] = b'7';
    assert_eq!(parse_gsi_block(&h).unwrap_err(), ParseError::TimeCodeStatus);
}

#[test]
fn bad_cumulative_status_fails_with_its_kind() {
    let h = valid_header();
    let mut r = valid_record(1);
    r[4] = 9;
    let buf: Vec<u8> = h.iter().chain(r.iter()).cloned().collect();
    assert_eq!(parse_stl_from_slice(&buf).unwrap_err(), ParseError::CumulativeStatus);
}

#[test]
fn bad_counter_digits_fail_as_generic() {
    let mut h = valid_header();
    h[238] = b'a';
    assert_eq!(parse_gsi_block(&h).unwrap_err(), ParseError::Unknown);
}

#[test]
fn header_fields_read_back() {
    let h = valid_header();
    let g = parse_gsi_block(&h).expect("header should parse");
    assert_eq!(g.get_language_code(), "0F");
    assert_eq!(g.get_total_number_of_text_and_timing_blocks(), 2);
    assert_eq!(g.get_total_number_of_subtitles(), 2);
    assert_eq!(g.get_total_number_of_chars_in_row(), 1);
    assert_eq!(g.get_max_number_of_chars_in_row(), 40);
    assert_eq!(g.get_max_number_of_rows(), 23);
    assert_eq!(g.get_total_number_of_disks(), 1);
    assert_eq!(g.get_disk_sequence_number(), 1);
    assert_eq!(g.get_timecode_start_of_program(), "00000000");
    assert_eq!(g.get_disk_format_code().get_fps(), 25);
    assert_eq!(g.get_original_program_title(), " ".repeat(32));
}

#[test]
fn header_metadata_decodes_through_its_code_page() {
    let mut h = valid_header();
    // Original program title, offset 16: 0x82 is 'e' with acute in CP850.
    h[16] = b'C';
    h[17] = 0x82;
    let g = parse_gsi_block(&h).expect("header should parse");
    let title = g.get_original_program_title();
    assert!(title.starts_with("Cé"));
}
