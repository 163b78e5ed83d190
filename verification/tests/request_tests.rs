//! The outbound query text: status wire codes, the cookie header, and the
//! payload with and without a date range.

use reservation_calendar::datetime::UtcDateTime;
use reservation_calendar::request::build_payload;
use reservation_calendar::request::joined_codes;
use reservation_calendar::vendor::FetchOption;
use reservation_calendar::vendor::ReservationStatusCode;
use reservation_calendar::vendor::UserAuth;

const QUERY_DOC: &str = "query bookings($input: BookingParams) {\\n            booking(input: $input) {\\n              id\\n              totalCount\\n              bookings {\\n                bookingId\\n                businessName\\n                serviceName\\n                bookingStatusCode\\n                isCompleted\\n                startDate\\n                endDate\\n                regDateTime\\n                completedDateTime\\n                cancelledDateTime\\n                snapshotJson\\n                business {\\n                  addressJson\\n                  completedPinValue\\n                  name\\n                  serviceName\\n                  isImp\\n                  isDeleted\\n                  isCompletedButtonImp\\n                  phoneInformationJson\\n                }\\n              }\\n            }\\n          }\\n          ";

#[test]
fn status_wire_codes() {
    assert_eq!(ReservationStatusCode::Cancel.code(), "RC04");
    assert_eq!(ReservationStatusCode::Completed.code(), "RC08");
    assert_eq!(ReservationStatusCode::Reserved.code(), "RC05");
}

#[test]
fn joined_codes_all_three() {
    let qs = vec![
        ReservationStatusCode::Cancel,
        ReservationStatusCode::Completed,
        ReservationStatusCode::Reserved,
    ];
    assert_eq!(joined_codes(&qs), "RC04,RC08,RC05");
}

#[test]
fn joined_codes_edge_sizes() {
    assert_eq!(joined_codes(&vec![]), "");
    assert_eq!(joined_codes(&vec![ReservationStatusCode::Reserved]), "RC05");
}

#[test]
fn cookie_header_names_both_tokens() {
    let auth = UserAuth {
        aut: "sample-aut".to_string(),
        ses: "sample-ses".to_string(),
    };
    assert_eq!(
        auth.cookie_header(),
        "NID_AUT=sample-aut; NID_SES=sample-ses"
    );
}

#[test]
fn default_fetch_option_is_empty() {
    let option = FetchOption::default();
    assert!(option.query_types.is_empty());
    assert!(option.start_date.is_none());
    assert!(option.end_date.is_none());
    assert_eq!(option.size, 0);
    assert_eq!(option.page, 0);
}

#[test]
fn payload_without_date_range() {
    let option = FetchOption {
        query_types: vec![
            ReservationStatusCode::Cancel,
            ReservationStatusCode::Completed,
            ReservationStatusCode::Reserved,
        ],
        start_date: None,
        end_date: None,
        size: 4,
        page: 0,
    };
    let expected = format!(
        "{{\"operationName\":\"bookings\",\"variables\":{{\"input\":{{\"queryType\":\"RC04,RC08,RC05\",\"businessMainCategory\":\"ALL\",\"startDate\":null,\"endDate\":null,\"size\":4,\"page\":0}}}},\"query\":\"{}\"}}",
        QUERY_DOC
    );
    assert_eq!(build_payload(&option), expected);
}

#[test]
fn payload_with_date_range() {
    let option = FetchOption {
        query_types: vec![ReservationStatusCode::Reserved],
        start_date: Some(UtcDateTime {
            year: 2024,
            month: 3,
            day: 1,
            hour: 0,
            minute: 0,
            second: 0,
        }),
        end_date: Some(UtcDateTime {
            year: 2024,
            month: 12,
            day: 31,
            hour: 23,
            minute: 59,
            second: 59,
        }),
        size: 25,
        page: 3,
    };
    let payload = build_payload(&option);
    assert!(payload.contains("\"queryType\":\"RC05\""));
    assert!(payload.contains("\"startDate\":\"2024-03-01T00:00:00Z\""));
    assert!(payload.contains("\"endDate\":\"2024-12-31T23:59:59Z\""));
    assert!(payload.contains("\"size\":25"));
    assert!(payload.contains("\"page\":3"));
}
