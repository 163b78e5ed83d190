//! The fetch trigger: success is reported whatever happened upstream, a
//! failed call leaves the store untouched, and a successful one maps and
//! upserts every booking in order.

use reservation_calendar::datetime::Date;
use reservation_calendar::datetime::UtcDateTime;
use reservation_calendar::front::UpstreamError;
use reservation_calendar::front::handle_calendar_request;
use reservation_calendar::front::handle_fetch_trigger;
use reservation_calendar::record::ReservationRecord;
use reservation_calendar::store::Store;
use reservation_calendar::vendor::Address;
use reservation_calendar::vendor::Booking;
use reservation_calendar::vendor::BookingWrap;
use reservation_calendar::vendor::ReservationOption;
use reservation_calendar::vendor::ReservationStatusCode;

fn instant(hour: u8) -> UtcDateTime {
    UtcDateTime {
        year: 2024,
        month: 3,
        day: 1,
        hour,
        minute: 0,
        second: 0,
    }
}

fn wrap(id: i64, business_name: &str) -> BookingWrap {
    BookingWrap {
        booking_status_code: ReservationStatusCode::Reserved,
        is_completed: false,
        start_date: Date {
            year: 2024,
            month: 3,
            day: 1,
        },
        end_date: Date {
            year: 2024,
            month: 3,
            day: 1,
        },
        snapshot_json: Booking {
            booking_id: id,
            business_id: 77,
            service_name: business_name.to_string(),
            business_item_name: "60min Massage".to_string(),
            business_item_id: 400,
            start_date_time: instant(10),
            end_date_time: instant(11),
            business_address_json: Address {
                road_addr: "123 Main St".to_string(),
            },
            options: vec![ReservationOption {
                name: "Oil".to_string(),
            }],
        },
    }
}

fn seeded_store() -> Store {
    let mut store = Store::new();
    store.upsert(&ReservationRecord {
        id: 1,
        business_id: 1,
        business_name: "Existing".to_string(),
        item_id: 1,
        item_name: "Item".to_string(),
        start_date_time: instant(8),
        end_date_time: instant(9),
        options: vec![],
        location: String::new(),
    });
    store
}

#[test]
fn failed_fetch_reports_success_and_leaves_store() {
    let mut store = seeded_store();
    let before = handle_calendar_request(&store);
    let (status, body) = handle_fetch_trigger(
        &mut store,
        Err(UpstreamError {
            detail: "connection refused".to_string(),
        }),
    );
    assert_eq!(status, 200);
    assert!(body.is_empty());
    let after = handle_calendar_request(&store);
    assert_eq!(before, after);
}

#[test]
fn successful_fetch_reports_success_with_empty_body() {
    let mut store = Store::new();
    let (status, body) = handle_fetch_trigger(&mut store, Ok(vec![wrap(1001, "Spa X")]));
    assert_eq!(status, 200);
    assert!(body.is_empty());
}

#[test]
fn successful_fetch_maps_and_upserts() {
    let mut store = Store::new();
    handle_fetch_trigger(&mut store, Ok(vec![wrap(1001, "Spa X"), wrap(1002, "Spa Y")]));
    let all = store.list_all().unwrap();
    assert_eq!(all.len(), 2);
    assert_eq!(all[0].id, 1001);
    assert_eq!(all[0].business_name, "Spa X");
    assert_eq!(all[0].options, vec!["Oil".to_string()]);
    assert_eq!(all[1].id, 1002);
}

#[test]
fn two_fetch_results_same_id_last_applied_wins() {
    let mut store = Store::new();
    handle_fetch_trigger(&mut store, Ok(vec![wrap(1001, "Spa X"), wrap(1001, "Spa Y")]));
    let all = store.list_all().unwrap();
    assert_eq!(all.len(), 1);
    assert_eq!(all[0].business_name, "Spa Y");

    let mut other = Store::new();
    handle_fetch_trigger(&mut other, Ok(vec![wrap(1001, "Spa Y"), wrap(1001, "Spa X")]));
    let all = other.list_all().unwrap();
    assert_eq!(all.len(), 1);
    assert_eq!(all[0].business_name, "Spa X");
}

#[test]
fn empty_fetch_result_changes_nothing() {
    let mut store = seeded_store();
    let before = handle_calendar_request(&store);
    let (status, _) = handle_fetch_trigger(&mut store, Ok(vec![]));
    assert_eq!(status, 200);
    assert_eq!(before, handle_calendar_request(&store));
}
