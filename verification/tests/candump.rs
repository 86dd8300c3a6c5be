use candump_parser::dump_entry;
use candump_parser::CanFrame;
use candump_parser::ErrorKind;
use candump_parser::LogEntry;
use candump_parser::Stage;
use candump_parser::Timestamp;

#[test]
fn it_works() {
    let exp = LogEntry::new(
        Timestamp { seconds: 1547046014, micros: 597158 },
        "vcan0".to_string(),
        CanFrame { can_id: 123, data: vec![1, 199], is_fd: false, fd_flags: 0 },
    );
    assert_eq!(dump_entry("(1547046014.597158) vcan0 7B#01C7"), Ok(("", exp)));
}

#[test]
fn it_fd_works() {
    let exp = LogEntry::new(
        Timestamp { seconds: 1547046014, micros: 597158 },
        "vcan0".to_string(),
        CanFrame { can_id: 123, data: vec![1, 199], is_fd: true, fd_flags: 1 },
    );
    assert_eq!(dump_entry("(1547046014.597158) vcan0 7B##101C7"), Ok(("", exp)));
}

#[test]
fn it_fd_works2() {
    let exp = LogEntry::new(
        Timestamp { seconds: 1547046014, micros: 597158 },
        "vcan0".to_string(),
        CanFrame { can_id: 123, data: vec![1, 199], is_fd: true, fd_flags: 3 },
    );
    assert_eq!(dump_entry("(1547046014.597158) vcan0 7B##301C7"), Ok(("", exp)));
}

#[test]
fn accessors_give_the_parsed_parts() {
    let (rest, entry) = dump_entry("(1547046014.597158) vcan0 7B#01C7").unwrap();
    assert_eq!(rest, "");
    assert_eq!(entry.timestamp().seconds, 1547046014);
    assert_eq!(entry.timestamp().micros, 597158);
    assert_eq!(entry.interface(), "vcan0");
    assert_eq!(entry.frame().can_id, 123);
    assert_eq!(entry.frame().data, vec![1, 199]);
    assert!(!entry.frame().is_fd);
    assert_eq!(entry.frame().fd_flags, 0);
}

#[test]
fn trailing_text_is_left_unconsumed() {
    let (rest, entry) = dump_entry("(1.2) c0 1#AA\n").unwrap();
    assert_eq!(rest, "\n");
    assert_eq!(entry.frame().data, vec![0xAA]);
}

#[test]
fn bad_timestamp_is_a_syntax_error() {
    let e = dump_entry("(bad) vcan0 7B#01C7").unwrap_err();
    assert_eq!(e.kind, ErrorKind::SyntaxError);
    assert_eq!(e.stage, Stage::Timestamp);
    assert_eq!(e.at, 1);
}

#[test]
fn odd_data_fails_with_odd_hex_length() {
    let e = dump_entry("(1.2) vcan0 7B#1").unwrap_err();
    assert_eq!(e.kind, ErrorKind::OddHexLength);
    assert_eq!(e.stage, Stage::Data);
}

#[test]
fn empty_data_fails() {
    let e = dump_entry("(1.2) vcan0 7B#").unwrap_err();
    assert_eq!(e.kind, ErrorKind::SyntaxError);
    assert_eq!(e.stage, Stage::Data);
}

#[test]
fn seconds_overflow_is_reported() {
    let e = dump_entry("(18446744073709551616.0) c0 1#AA").unwrap_err();
    assert_eq!(e.kind, ErrorKind::NumericOverflow);
    assert_eq!(e.stage, Stage::Timestamp);
}

#[test]
fn largest_micros_still_fit() {
    let (_, entry) = dump_entry("(0.18446744073709551615) c0 1#AA").unwrap();
    assert_eq!(entry.timestamp().seconds, 0);
    assert_eq!(entry.timestamp().micros, u64::MAX);
}

#[test]
fn can_id_overflow_is_reported() {
    let e = dump_entry("(1.2) c0 123456789#AA").unwrap_err();
    assert_eq!(e.kind, ErrorKind::NumericOverflow);
    assert_eq!(e.stage, Stage::CanId);
}

#[test]
fn largest_can_id_still_fits() {
    let (_, entry) = dump_entry("(1.2) c0 FFFFFFFF#AA").unwrap();
    assert_eq!(entry.frame().can_id, u32::MAX);
}

#[test]
fn missing_separator_fails() {
    let e = dump_entry("(1.2) c0 7B 01C7").unwrap_err();
    assert_eq!(e.kind, ErrorKind::SyntaxError);
    assert_eq!(e.stage, Stage::Separator);
}

#[test]
fn missing_fd_flag_digit_fails() {
    let e = dump_entry("(1.2) c0 1##").unwrap_err();
    assert_eq!(e.kind, ErrorKind::SyntaxError);
    assert_eq!(e.stage, Stage::FdFlags);
}

#[test]
fn non_hex_fd_flag_fails() {
    let e = dump_entry("(1.2) c0 1##XAA").unwrap_err();
    assert_eq!(e.kind, ErrorKind::SyntaxError);
    assert_eq!(e.stage, Stage::FdFlags);
}

#[test]
fn empty_interface_fails() {
    let e = dump_entry("(1.2) #AA").unwrap_err();
    assert_eq!(e.kind, ErrorKind::SyntaxError);
    assert_eq!(e.stage, Stage::Interface);
}

#[test]
fn lowercase_hex_is_accepted() {
    let (_, entry) = dump_entry("(1.2) c0 7b#aabb").unwrap();
    assert_eq!(entry.frame().can_id, 0x7B);
    assert_eq!(entry.frame().data, vec![0xAA, 0xBB]);
}

#[test]
fn double_hash_is_preferred_over_single() {
    let (rest, entry) = dump_entry("(1.2) c0 1##2AB").unwrap();
    assert_eq!(rest, "");
    assert!(entry.frame().is_fd);
    assert_eq!(entry.frame().fd_flags, 2);
    assert_eq!(entry.frame().data, vec![0xAB]);
}

#[test]
fn spaces_and_tabs_are_skipped() {
    let (_, entry) = dump_entry("(1.2)\t c0  \t1#AA").unwrap();
    assert_eq!(entry.interface(), "c0");
    assert_eq!(entry.frame().can_id, 1);
}

#[test]
fn spaces_are_optional() {
    let (_, entry) = dump_entry("(1.2)c0 1#AA").unwrap();
    assert_eq!(entry.interface(), "c0");
}

#[test]
fn decoded_data_reencodes_to_the_same_digits() {
    let (_, entry) = dump_entry("(1.2) c0 1#01c7").unwrap();
    let mut encoded = String::new();
    for b in entry.frame().data.iter() {
        encoded.push_str(&format!("{:02X}", b));
    }
    assert_eq!(encoded, "01C7");
}
