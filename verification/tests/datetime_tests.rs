//! Timestamp rendering: the compact calendar form and the RFC 3339 form,
//! with zero padding in every field.

use reservation_calendar::datetime::UtcDateTime;

#[test]
fn basic_format_scenario_value() {
    let t = UtcDateTime {
        year: 2024,
        month: 3,
        day: 1,
        hour: 10,
        minute: 0,
        second: 0,
    };
    assert_eq!(t.basic_format(), "20240301T100000");
}

#[test]
fn basic_format_pads_every_field() {
    let t = UtcDateTime {
        year: 999,
        month: 1,
        day: 2,
        hour: 3,
        minute: 4,
        second: 5,
    };
    assert_eq!(t.basic_format(), "09990102T030405");
}

#[test]
fn basic_format_largest_fields() {
    let t = UtcDateTime {
        year: 9999,
        month: 12,
        day: 31,
        hour: 23,
        minute: 59,
        second: 59,
    };
    assert_eq!(t.basic_format(), "99991231T235959");
}

#[test]
fn rfc3339_scenario_value() {
    let t = UtcDateTime {
        year: 2024,
        month: 3,
        day: 1,
        hour: 10,
        minute: 0,
        second: 0,
    };
    assert_eq!(t.rfc3339(), "2024-03-01T10:00:00Z");
}
