//! The shapes the upstream reservation platform hands back, reduced to the
//! fields the system reads, together with the credential and the fetch
//! options an outbound query is built from.

use vstd::prelude::*;
use crate::datetime::Date;
use crate::datetime::UtcDateTime;

verus! {

/// The status a vendor booking carries.
#[derive(Clone, Copy, Debug, PartialEq, Eq, Structural)]
pub enum ReservationStatusCode {
    Cancel,
    Completed,
    Reserved,
}

impl ReservationStatusCode {
    /// The vendor's wire code for the status.
    pub open spec fn spec_code(self) -> Seq<char> {
        match self {
            ReservationStatusCode::Cancel => seq!['R', 'C', '0', '4'],
            ReservationStatusCode::Completed => seq!['R', 'C', '0', '8'],
            ReservationStatusCode::Reserved => seq!['R', 'C', '0', '5'],
        }
    }

    /// Renders the vendor's wire code.
    pub fn code(&self) -> (r: &'static str)
        ensures
            r@ == self.spec_code(),
    {
        proof {
            reveal_strlit("RC04");
            reveal_strlit("RC08");
            reveal_strlit("RC05");
        }
        let r = match self {
            ReservationStatusCode::Cancel => "RC04",
            ReservationStatusCode::Completed => "RC08",
            ReservationStatusCode::Reserved => "RC05",
        };
        assert(r@ =~= self.spec_code());
        r
    }
}

/// The address object nested in a booking snapshot; only the road address is
/// load-bearing.
#[derive(Clone, Debug)]
pub struct Address {
    pub road_addr: String,
}

/// One option attached to a booking; only its name is load-bearing.
#[derive(Clone, Debug)]
pub struct ReservationOption {
    pub name: String,
}

/// The snapshot payload of one vendor booking: the fields the mapper reads.
#[derive(Clone, Debug)]
pub struct Booking {
    pub booking_id: i64,
    pub business_id: i64,
    pub service_name: String,
    pub business_item_name: String,
    pub business_item_id: i64,
    pub start_date_time: UtcDateTime,
    pub end_date_time: UtcDateTime,
    pub business_address_json: Address,
    pub options: Vec<ReservationOption>,
}

impl Booking {
    /// Both timestamps carry meaningful calendar fields.
    pub open spec fn wf(self) -> bool {
        self.start_date_time.wf() && self.end_date_time.wf()
    }
}

/// One entry of the vendor's booking list: the status fields around the
/// snapshot.
#[derive(Clone, Debug)]
pub struct BookingWrap {
    pub booking_status_code: ReservationStatusCode,
    pub is_completed: bool,
    pub start_date: Date,
    pub end_date: Date,
    pub snapshot_json: Booking,
}

impl BookingWrap {
    /// The snapshot's timestamps carry meaningful calendar fields.
    pub open spec fn wf(self) -> bool {
        self.snapshot_json.wf()
    }
}

/// The vendor's booking list with its total count.
#[derive(Clone, Debug)]
pub struct Booking2 {
    pub bookings: Vec<BookingWrap>,
    pub total_count: u32,
}

/// The data envelope of the vendor response.
#[derive(Clone, Debug)]
pub struct Data {
    pub booking: Booking2,
}

/// The whole vendor response to one bookings query.
#[derive(Clone, Debug)]
pub struct NaverCalendarResponse {
    pub data: Data,
}

/// The two opaque session tokens, supplied once at process start and carried
/// on every outbound call.
#[derive(Clone, Debug)]
pub struct UserAuth {
    pub aut: String,
    pub ses: String,
}

/// What one upstream query asks for: a subset of the status codes, an
/// optional date range, and a page.
#[derive(Clone, Debug)]
pub struct FetchOption {
    pub query_types: Vec<ReservationStatusCode>,
    pub start_date: Option<UtcDateTime>,
    pub end_date: Option<UtcDateTime>,
    pub size: usize,
    pub page: usize,
}

impl FetchOption {
    /// Any date bound given carries meaningful calendar fields.
    pub open spec fn wf(self) -> bool {
        &&& (self.start_date matches Some(t) ==> t.wf())
        &&& (self.end_date matches Some(t) ==> t.wf())
    }
}

impl Default for FetchOption {
    /// The empty query: no statuses, no date range, zero size on page zero.
    fn default() -> (r: Self)
        ensures
            r.query_types@ == Seq::<ReservationStatusCode>::empty(),
            r.start_date is None,
            r.end_date is None,
            r.size == 0,
            r.page == 0,
    {
        let r = FetchOption {
            query_types: Vec::new(),
            start_date: None,
            end_date: None,
            size: 0,
            page: 0,
        };
        assert(r.query_types@ =~= Seq::<ReservationStatusCode>::empty());
        r
    }
}

} // verus!
