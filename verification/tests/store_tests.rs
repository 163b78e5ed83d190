//! The store: upsert-by-identifier semantics, the read-back round trip, and
//! the decode error for a malformed row.

use reservation_calendar::datetime::UtcDateTime;
use reservation_calendar::record::ReservationRecord;
use reservation_calendar::store::Store;
use reservation_calendar::store::StoredRow;

fn instant(hour: u8) -> UtcDateTime {
    UtcDateTime {
        year: 2024,
        month: 3,
        day: 1,
        hour,
        minute: 0,
        second: 0,
    }
}

fn record(id: i64, business_name: &str, options: &[&str]) -> ReservationRecord {
    ReservationRecord {
        id,
        business_id: 77,
        business_name: business_name.to_string(),
        item_id: 400,
        item_name: "60min Massage".to_string(),
        start_date_time: instant(10),
        end_date_time: instant(11),
        options: options.iter().map(|s| s.to_string()).collect(),
        location: "123 Main St".to_string(),
    }
}

#[test]
fn empty_store_lists_nothing() {
    let store = Store::new();
    assert!(store.list_all().unwrap().is_empty());
}

#[test]
fn upsert_then_read_back_round_trips() {
    let mut store = Store::new();
    let original = record(1001, "Spa X", &["Oil", "Hot stones", ""]);
    store.upsert(&original);
    let all = store.list_all().unwrap();
    assert_eq!(all.len(), 1);
    assert_eq!(all[0].id, 1001);
    assert_eq!(all[0].business_name, "Spa X");
    assert_eq!(
        all[0].options,
        vec!["Oil".to_string(), "Hot stones".to_string(), String::new()]
    );
}

#[test]
fn round_trip_keeps_empty_options() {
    let mut store = Store::new();
    store.upsert(&record(1, "Spa X", &[]));
    let all = store.list_all().unwrap();
    assert!(all[0].options.is_empty());
}

#[test]
fn round_trip_keeps_order_and_oddities() {
    let mut store = Store::new();
    let options = ["b", "a", "x\"y", "p\\q", "one\ntwo", "예약, 옵션"];
    store.upsert(&record(1, "Spa X", &options));
    let all = store.list_all().unwrap();
    let expected: Vec<String> = options.iter().map(|s| s.to_string()).collect();
    assert_eq!(all[0].options, expected);
}

#[test]
fn upsert_twice_is_idempotent() {
    let mut store = Store::new();
    let rec = record(1001, "Spa X", &["Oil"]);
    store.upsert(&rec);
    store.upsert(&rec);
    let all = store.list_all().unwrap();
    assert_eq!(all.len(), 1);
    assert_eq!(all[0].id, 1001);
    assert_eq!(all[0].business_name, "Spa X");
    assert_eq!(all[0].options, vec!["Oil".to_string()]);
}

#[test]
fn upsert_same_id_last_write_wins() {
    let mut store = Store::new();
    store.upsert(&record(1001, "Spa X", &["Oil"]));
    store.upsert(&record(1001, "Spa Y", &["Stones"]));
    let all = store.list_all().unwrap();
    assert_eq!(all.len(), 1);
    assert_eq!(all[0].business_name, "Spa Y");
    assert_eq!(all[0].options, vec!["Stones".to_string()]);
}

#[test]
fn upsert_same_id_other_order_still_last_write() {
    let mut store = Store::new();
    store.upsert(&record(1001, "Spa Y", &["Stones"]));
    store.upsert(&record(1001, "Spa X", &["Oil"]));
    let all = store.list_all().unwrap();
    assert_eq!(all.len(), 1);
    assert_eq!(all[0].business_name, "Spa X");
}

#[test]
fn distinct_ids_keep_insertion_order() {
    let mut store = Store::new();
    store.upsert(&record(3, "C", &[]));
    store.upsert(&record(1, "A", &[]));
    store.upsert(&record(2, "B", &[]));
    store.upsert(&record(1, "A2", &[]));
    let all = store.list_all().unwrap();
    let ids: Vec<i64> = all.iter().map(|r| r.id).collect();
    assert_eq!(ids, vec![3, 1, 2]);
    assert_eq!(all[1].business_name, "A2");
}

#[test]
fn malformed_row_surfaces_decode_error() {
    let mut store = Store::new();
    store.upsert(&record(1, "Spa X", &["Oil"]));
    store.load_row(StoredRow {
        id: 2,
        business_id: 1,
        business_name: "Broken".to_string(),
        item_id: 1,
        item_name: "Row".to_string(),
        start_date_time: instant(9),
        end_date_time: instant(10),
        options_text: "not a list".to_string(),
        location: String::new(),
    });
    assert!(store.list_all().is_err());
}

#[test]
fn load_row_accepts_well_formed_text() {
    let mut store = Store::new();
    store.load_row(StoredRow {
        id: 5,
        business_id: 1,
        business_name: "Spa Z".to_string(),
        item_id: 2,
        item_name: "Sauna".to_string(),
        start_date_time: instant(9),
        end_date_time: instant(10),
        options_text: "[\"Oil\"]".to_string(),
        location: "Somewhere".to_string(),
    });
    let all = store.list_all().unwrap();
    assert_eq!(all[0].options, vec!["Oil".to_string()]);
}
