use shift_sync::codec::{encode_timestamp, escape_field, unescape_field};
use shift_sync::ics::{generate_ics, generate_ics_checked};
use shift_sync::shift::{InvalidTimestamp, Shift, Timestamp};

fn ts(year: u16, month: u8, day: u8, hour: u8, minute: u8, second: u8) -> Timestamp {
    Timestamp::new(year, month, day, hour, minute, second).unwrap()
}

#[test]
fn empty_input_yields_bare_envelope() {
    let out = generate_ics(Vec::new());
    assert_eq!(out, "BEGIN:VCALENDAR\nVERSION:2.0\nEND:VCALENDAR\n");
}

#[test]
fn single_shift_document_end_to_end() {
    let shift = Shift {
        title: String::from("Morning Shift"),
        start: ts(2026, 1, 10, 9, 0, 0),
        end: ts(2026, 1, 10, 18, 0, 0),
        location: String::from("Main Office"),
    };
    let out = generate_ics(vec![shift]);
    assert_eq!(
        out,
        "BEGIN:VCALENDAR\nVERSION:2.0\n\
         BEGIN:VEVENT\n\
         SUMMARY:Morning Shift\n\
         DTSTART:20260110T090000\n\
         DTEND:20260110T180000\n\
         LOCATION:Main Office\n\
         END:VEVENT\n\
         END:VCALENDAR\n"
    );
}

#[test]
fn one_event_block_per_shift() {
    let mut shifts = Vec::new();
    for i in 0..3u8 {
        shifts.push(Shift {
            title: format!("Shift {}", i),
            start: ts(2026, 2, 1 + i, 8, 0, 0),
            end: ts(2026, 2, 1 + i, 16, 0, 0),
            location: String::from("Depot"),
        });
    }
    let out = generate_ics(shifts);
    let begins = out.lines().filter(|l| *l == "BEGIN:VEVENT").count();
    let ends = out.lines().filter(|l| *l == "END:VEVENT").count();
    assert_eq!(begins, 3);
    assert_eq!(ends, 3);
}

#[test]
fn event_blocks_keep_input_order() {
    let first = Shift {
        title: String::from("Alpha"),
        start: ts(2026, 3, 2, 9, 0, 0),
        end: ts(2026, 3, 2, 12, 0, 0),
        location: String::from("North"),
    };
    let second = Shift {
        title: String::from("Beta"),
        start: ts(2026, 3, 1, 9, 0, 0),
        end: ts(2026, 3, 1, 12, 0, 0),
        location: String::from("South"),
    };
    let out = generate_ics(vec![first, second]);
    let a = out.find("SUMMARY:Alpha").unwrap();
    let b = out.find("SUMMARY:Beta").unwrap();
    assert!(a < b);
}

#[test]
fn comma_is_escaped_and_parses_back() {
    let escaped = escape_field("Shift, Morning");
    assert_eq!(escaped, "Shift\\, Morning");
    assert_eq!(unescape_field(&escaped), "Shift, Morning");
}

#[test]
fn all_special_characters_round_trip() {
    let raw = "a\\b;c\nd,e";
    let escaped = escape_field(raw);
    assert_eq!(escaped, "a\\\\b\\;c\\nd\\,e");
    assert_eq!(unescape_field(&escaped), raw);
}

#[test]
fn plain_value_passes_through_unchanged() {
    assert_eq!(escape_field("Main Office 3"), "Main Office 3");
    assert_eq!(escape_field(""), "");
}

#[test]
fn escaped_fields_appear_in_document() {
    let shift = Shift {
        title: String::from("Late, night"),
        start: ts(2026, 5, 6, 22, 0, 0),
        end: ts(2026, 5, 7, 6, 0, 0),
        location: String::from("Room 1; Annex"),
    };
    let out = generate_ics(vec![shift]);
    assert!(out.contains("SUMMARY:Late\\, night\n"));
    assert!(out.contains("LOCATION:Room 1\\; Annex\n"));
}

#[test]
fn start_time_encodes_to_fixed_token() {
    let t = ts(2026, 1, 10, 9, 0, 0);
    assert_eq!(encode_timestamp(&t), "20260110T090000");
}

#[test]
fn encoding_zero_pads_every_component() {
    let t = ts(999, 1, 2, 3, 4, 5);
    assert_eq!(encode_timestamp(&t), "09990102T030405");
}

#[test]
fn month_thirteen_is_rejected() {
    assert_eq!(
        Timestamp::new(2026, 13, 1, 0, 0, 0),
        Err(InvalidTimestamp)
    );
}

#[test]
fn out_of_range_components_are_rejected() {
    assert!(Timestamp::new(2026, 0, 1, 0, 0, 0).is_err());
    assert!(Timestamp::new(2026, 1, 0, 0, 0, 0).is_err());
    assert!(Timestamp::new(2026, 1, 32, 0, 0, 0).is_err());
    assert!(Timestamp::new(2026, 4, 31, 0, 0, 0).is_err());
    assert!(Timestamp::new(2026, 1, 1, 24, 0, 0).is_err());
    assert!(Timestamp::new(2026, 1, 1, 0, 60, 0).is_err());
    assert!(Timestamp::new(2026, 1, 1, 0, 0, 60).is_err());
    assert!(Timestamp::new(10000, 1, 1, 0, 0, 0).is_err());
}

#[test]
fn leap_year_rule_decides_february() {
    assert!(Timestamp::new(2024, 2, 29, 0, 0, 0).is_ok());
    assert!(Timestamp::new(2023, 2, 29, 0, 0, 0).is_err());
    assert!(Timestamp::new(2000, 2, 29, 0, 0, 0).is_ok());
    assert!(Timestamp::new(1900, 2, 29, 0, 0, 0).is_err());
}

#[test]
fn valid_timestamp_keeps_its_components() {
    let t = ts(2026, 12, 31, 23, 59, 59);
    assert_eq!(t.year, 2026);
    assert_eq!(t.month, 12);
    assert_eq!(t.day, 31);
    assert_eq!(t.hour, 23);
    assert_eq!(t.minute, 59);
    assert_eq!(t.second, 59);
    assert_eq!(encode_timestamp(&t), "20261231T235959");
}

#[test]
fn zero_duration_shift_is_still_serialized() {
    let at = ts(2026, 7, 1, 12, 0, 0);
    let shift = Shift::new(
        String::from(""),
        at,
        at,
        String::from(""),
    );
    let out = generate_ics(vec![shift]);
    assert!(out.contains("SUMMARY:\n"));
    assert!(out.contains("DTSTART:20260701T120000\n"));
    assert!(out.contains("DTEND:20260701T120000\n"));
    assert!(out.contains("LOCATION:\n"));
}

#[test]
fn checked_serializer_rejects_out_of_range_instant() {
    let bad = Timestamp {
        year: 2026,
        month: 13,
        day: 1,
        hour: 0,
        minute: 0,
        second: 0,
    };
    let shift = Shift {
        title: String::from("Broken"),
        start: bad,
        end: bad,
        location: String::from("Nowhere"),
    };
    assert_eq!(generate_ics_checked(vec![shift]), Err(InvalidTimestamp));
}

#[test]
fn checked_serializer_matches_unchecked_on_valid_input() {
    let shift = Shift {
        title: String::from("Evening"),
        start: ts(2026, 8, 3, 17, 0, 0),
        end: ts(2026, 8, 3, 23, 30, 0),
        location: String::from("Cafe"),
    };
    let checked = generate_ics_checked(vec![shift.clone()]).unwrap();
    let plain = generate_ics(vec![shift]);
    assert_eq!(checked, plain);
}

#[test]
fn lone_trailing_backslash_passes_through_unescape() {
    assert_eq!(unescape_field("\\"), "\\");
    assert_eq!(unescape_field("ab\\"), "ab\\");
}
