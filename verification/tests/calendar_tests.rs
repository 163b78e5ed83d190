//! The calendar renderer and the serving route: the empty document, the one
//! known event, and byte-identical re-rendering.

use reservation_calendar::calendar::render_calendar;
use reservation_calendar::datetime::UtcDateTime;
use reservation_calendar::front::handle_calendar_request;
use reservation_calendar::record::ReservationRecord;
use reservation_calendar::store::Store;
use reservation_calendar::store::StoredRow;

const EMPTY_DOCUMENT: &str = "BEGIN:VCALENDAR\r\nVERSION:2.0\r\nPRODID:kawai\r\nBEGIN:VTIMEZONE\r\nTZID:UTC\r\nBEGIN:STANDARD\r\nDTSTART:19700101T000000\r\nTZOFFSETFROM:+0000\r\nTZOFFSETTO:+0000\r\nEND:STANDARD\r\nEND:VTIMEZONE\r\nEND:VCALENDAR\r\n";

fn scenario_record() -> ReservationRecord {
    ReservationRecord {
        id: 1001,
        business_id: 77,
        business_name: "Spa X".to_string(),
        item_id: 400,
        item_name: "60min Massage".to_string(),
        start_date_time: UtcDateTime {
            year: 2024,
            month: 3,
            day: 1,
            hour: 10,
            minute: 0,
            second: 0,
        },
        end_date_time: UtcDateTime {
            year: 2024,
            month: 3,
            day: 1,
            hour: 11,
            minute: 0,
            second: 0,
        },
        options: vec!["Oil".to_string()],
        location: "123 Main St".to_string(),
    }
}

#[test]
fn empty_store_serves_valid_empty_document() {
    let store = Store::new();
    let (status, body) = handle_calendar_request(&store);
    assert_eq!(status, 200);
    assert_eq!(body, EMPTY_DOCUMENT);
    assert!(!body.contains("BEGIN:VEVENT"));
}

#[test]
fn one_record_serves_its_event() {
    let mut store = Store::new();
    store.upsert(&scenario_record());
    let (status, body) = handle_calendar_request(&store);
    assert_eq!(status, 200);
    assert!(body.starts_with("BEGIN:VCALENDAR\r\n"));
    assert!(body.ends_with("END:VCALENDAR\r\n"));
    assert!(body.contains("BEGIN:VTIMEZONE\r\nTZID:UTC\r\n"));
    assert!(body.contains("UID:1001\r\n"));
    assert!(body.contains("SUMMARY:Spa X - 60min Massage\r\n"));
    assert!(body.contains("DESCRIPTION:Oil\r\n"));
    assert!(body.contains("DTSTART;TZID=UTC:20240301T100000\r\n"));
    assert!(body.contains("DTEND;TZID=UTC:20240301T110000\r\n"));
}

#[test]
fn rendered_event_text_is_exact() {
    let records = vec![scenario_record()];
    let body = render_calendar(&records);
    let expected_event = "BEGIN:VEVENT\r\nUID:1001\r\nDTSTAMP:20240301T100000\r\nSUMMARY:Spa X - 60min Massage\r\nDESCRIPTION:Oil\r\nDTSTART;TZID=UTC:20240301T100000\r\nDTEND;TZID=UTC:20240301T110000\r\nEND:VEVENT\r\n";
    let expected = format!(
        "{}{}{}",
        &EMPTY_DOCUMENT[..EMPTY_DOCUMENT.len() - "END:VCALENDAR\r\n".len()],
        expected_event,
        "END:VCALENDAR\r\n"
    );
    assert_eq!(body, expected);
}

#[test]
fn description_joins_options_with_newlines() {
    let mut record = scenario_record();
    record.options = vec!["Oil".to_string(), "Hot stones".to_string()];
    let body = render_calendar(&vec![record]);
    assert!(body.contains("DESCRIPTION:Oil\nHot stones\r\n"));
}

#[test]
fn negative_identifier_renders_with_sign() {
    let mut record = scenario_record();
    record.id = -12;
    let body = render_calendar(&vec![record]);
    assert!(body.contains("UID:-12\r\n"));
}

#[test]
fn rendering_twice_is_byte_identical() {
    let records = vec![scenario_record()];
    let first = render_calendar(&records);
    let second = render_calendar(&records);
    assert_eq!(first.as_bytes(), second.as_bytes());
}

#[test]
fn events_follow_store_order() {
    let mut store = Store::new();
    let mut a = scenario_record();
    a.id = 2;
    a.business_name = "Second".to_string();
    let mut b = scenario_record();
    b.id = 1;
    b.business_name = "First".to_string();
    store.upsert(&a);
    store.upsert(&b);
    let (_, body) = handle_calendar_request(&store);
    let second_at = body.find("SUMMARY:Second").unwrap();
    let first_at = body.find("SUMMARY:First").unwrap();
    assert!(second_at < first_at);
}

#[test]
fn malformed_row_serves_internal_error() {
    let mut store = Store::new();
    store.load_row(StoredRow {
        id: 9,
        business_id: 0,
        business_name: String::new(),
        item_id: 0,
        item_name: String::new(),
        start_date_time: UtcDateTime {
            year: 2024,
            month: 1,
            day: 1,
            hour: 0,
            minute: 0,
            second: 0,
        },
        end_date_time: UtcDateTime {
            year: 2024,
            month: 1,
            day: 1,
            hour: 1,
            minute: 0,
            second: 0,
        },
        options_text: "{broken}".to_string(),
        location: String::new(),
    });
    let (status, body) = handle_calendar_request(&store);
    assert_eq!(status, 500);
    assert!(body.is_empty());
}
