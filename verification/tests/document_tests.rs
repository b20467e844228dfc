use ebustl::decimal::{format_decimal, parse_decimal};
use ebustl::error::ParseError;
use ebustl::gsi::GsiBlock;
use ebustl::stl::parse_stl_from_slice;
use ebustl::{Stl, Time, TtiFormat};

fn plain_format() -> TtiFormat {
    TtiFormat {
        jc: 2,
        vp: 19,
        dh: false,
    }
}

#[test]
fn appended_subtitles_are_numbered_from_one() {
    let mut stl = Stl::new();
    assert_eq!(stl.gsi.get_total_number_of_text_and_timing_blocks(), 0);
    assert_eq!(stl.gsi.get_total_number_of_subtitles(), 0);

    stl.add_sub(Time::new(0, 0, 1, 0), Time::new(0, 0, 2, 0), "first", plain_format());
    stl.add_sub(Time::new(0, 0, 3, 0), Time::new(0, 0, 4, 0), "second", plain_format());

    assert_eq!(stl.ttis.len(), 2);
    assert_eq!(stl.ttis[0].get_subtitle_number_range(), 1);
    assert_eq!(stl.ttis[1].get_subtitle_number_range(), 2);
    assert_eq!(stl.gsi.get_total_number_of_text_and_timing_blocks(), 2);
    assert_eq!(stl.gsi.get_total_number_of_subtitles(), 2);
}

#[test]
fn appended_text_reads_back_with_a_line_break() {
    let mut stl = Stl::new();
    let fit = stl.add_sub(
        Time::new(0, 0, 1, 0),
        Time::new(0, 0, 2, 0),
        "Hello there",
        plain_format(),
    );
    assert!(fit);
    assert_eq!(stl.ttis[0].get_text(), "Hello there\r\n");
    assert_eq!(stl.ttis[0].get_subtitle_group_number(), 0);
    assert_eq!(stl.ttis[0].get_extension_block_number(), 0xff);
    assert_eq!(stl.ttis[0].get_vertical_position(), 19);
    assert_eq!(stl.ttis[0].get_justification_code(), 2);
    assert_eq!(stl.ttis[0].get_comment_flag(), 0);
    assert_eq!(stl.ttis[0].get_time_code_in(), &Time::new(0, 0, 1, 0));
    assert_eq!(stl.ttis[0].get_time_code_out(), &Time::new(0, 0, 2, 0));
}

#[test]
fn overlong_subtitle_text_reports_truncation() {
    let mut stl = Stl::new();
    let fit = stl.add_sub(
        Time::new(0, 0, 1, 0),
        Time::new(0, 0, 2, 0),
        &"y".repeat(200),
        plain_format(),
    );
    assert!(!fit);
    assert_eq!(stl.ttis[0].get_text(), format!("{}\r\n", "y".repeat(107)));
}

#[test]
fn built_document_survives_a_file_round_trip() {
    let mut stl = Stl::new();
    stl.add_sub(Time::new(0, 0, 1, 0), Time::new(0, 0, 2, 0), "one", plain_format());
    stl.add_sub(Time::new(0, 0, 3, 0), Time::new(0, 0, 4, 0), "two", plain_format());

    let bytes = stl.serialize();
    assert_eq!(bytes.len(), 1024 + 2 * 128);

    let back = parse_stl_from_slice(&bytes).expect("serialized document should parse");
    assert_eq!(back.ttis.len(), 2);
    assert_eq!(back.ttis[0].get_text(), "one\r\n");
    assert_eq!(back.ttis[1].get_text(), "two\r\n");
    assert_eq!(back.ttis[0].get_subtitle_number_range(), 1);
    assert_eq!(back.ttis[1].get_subtitle_number_range(), 2);
    assert_eq!(back.gsi.get_language_code(), "0F");
    assert_eq!(back.serialize(), bytes);
}

#[test]
fn fresh_header_has_the_documented_defaults() {
    let g = GsiBlock::new();
    assert_eq!(g.get_language_code(), "0F");
    assert_eq!(g.get_total_number_of_text_and_timing_blocks(), 0);
    assert_eq!(g.get_total_number_of_subtitles(), 0);
    assert_eq!(g.get_total_number_of_chars_in_row(), 1);
    assert_eq!(g.get_max_number_of_chars_in_row(), 40);
    assert_eq!(g.get_max_number_of_rows(), 23);
    assert_eq!(g.get_total_number_of_disks(), 1);
    assert_eq!(g.get_disk_sequence_number(), 1);
    assert_eq!(g.get_timecode_start_of_program(), "00000000");
    assert_eq!(g.get_timecode_first_in_cue(), "00000000");
    assert_eq!(g.get_revision_number(), "00");
    assert_eq!(g.get_disk_format_code().get_fps(), 25);

    let date = g.get_creation_date();
    assert_eq!(date.len(), 6);
    assert!(date.chars().all(|c| c.is_ascii_digit()));
    assert_eq!(g.get_revision_date(), date);

    assert_eq!(g.serialize().len(), 1024);
}

#[test]
fn timecode_formats_for_humans() {
    let t = Time::new(1, 2, 3, 4);
    assert_eq!(t.format_fps(25), "1:2:3,160");
    assert_eq!(Time::new(0, 0, 0, 0).format_fps(30), "0:0:0,0");
    assert_eq!(Time::new(23, 59, 59, 24).format_fps(25), "23:59:59,960");
}

#[test]
fn error_messages_name_the_failing_field() {
    assert_eq!(
        ParseError::CodePageNumber(999).message(),
        "Unknown Code Page Number: 999"
    );
    assert_eq!(
        ParseError::Incomplete.message(),
        "Error parsing, file may be incomplete or corrupted"
    );
    assert_eq!(
        ParseError::DiskFormatCode("STLXX.01".to_string()).message(),
        "Error parsing Disk Format Code: STLXX.01"
    );
    assert_eq!(
        ParseError::IoError("no such file".to_string()).message(),
        "IoError: no such file"
    );
}

#[test]
fn counters_format_and_parse_as_fixed_width_decimal() {
    assert_eq!(format_decimal(42, 5), b"00042");
    assert_eq!(format_decimal(0, 3), b"000");
    assert_eq!(format_decimal(999, 3), b"999");
    assert_eq!(parse_decimal(b"00042"), Some(42));
    assert_eq!(parse_decimal(b"65535"), Some(65535));
    assert_eq!(parse_decimal(b"0004x"), None);
    assert_eq!(parse_decimal(b" 0042"), None);
}
