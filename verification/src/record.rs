//! The stable local reservation record, its mathematical content, and the
//! mapper that reduces a vendor booking snapshot to it.

use vstd::prelude::*;
use crate::datetime::UtcDateTime;
use crate::vendor::Booking;
use crate::vendor::ReservationOption;

verus! {

/// One reservation in the stable local shape, keyed by the upstream booking
/// identifier.
#[derive(Clone, Debug)]
pub struct ReservationRecord {
    pub id: i64,
    pub business_id: i64,
    pub business_name: String,
    pub item_id: i64,
    pub item_name: String,
    pub start_date_time: UtcDateTime,
    pub end_date_time: UtcDateTime,
    pub options: Vec<String>,
    pub location: String,
}

/// The mathematical content of a reservation record.
pub ghost struct RecordView {
    pub id: int,
    pub business_id: int,
    pub business_name: Seq<char>,
    pub item_id: int,
    pub item_name: Seq<char>,
    pub start_date_time: UtcDateTime,
    pub end_date_time: UtcDateTime,
    pub options: Seq<Seq<char>>,
    pub location: Seq<char>,
}

impl RecordView {
    /// Both timestamps carry meaningful calendar fields.
    pub open spec fn wf(self) -> bool {
        self.start_date_time.wf() && self.end_date_time.wf()
    }
}

impl View for ReservationRecord {
    type V = RecordView;

    open spec fn view(&self) -> RecordView {
        RecordView {
            id: self.id as int,
            business_id: self.business_id as int,
            business_name: self.business_name@,
            item_id: self.item_id as int,
            item_name: self.item_name@,
            start_date_time: self.start_date_time,
            end_date_time: self.end_date_time,
            options: self.options.deep_view(),
            location: self.location@,
        }
    }
}

impl DeepView for ReservationRecord {
    type V = RecordView;

    open spec fn deep_view(&self) -> RecordView {
        self.view()
    }
}

/// The names of a booking's options, in order.
pub open spec fn spec_option_names(opts: Seq<ReservationOption>) -> Seq<Seq<char>> {
    opts.map_values(|o: ReservationOption| o.name@)
}

/// What the mapper yields for a vendor booking snapshot: every field of the
/// stable record, pinned. The business-name column carries the snapshot's
/// service name; the options reduce to their names, in order; the location
/// is the road address.
pub open spec fn spec_map_booking(b: Booking) -> RecordView {
    RecordView {
        id: b.booking_id as int,
        business_id: b.business_id as int,
        business_name: b.service_name@,
        item_id: b.business_item_id as int,
        item_name: b.business_item_name@,
        start_date_time: b.start_date_time,
        end_date_time: b.end_date_time,
        options: spec_option_names(b.options@),
        location: b.business_address_json.road_addr@,
    }
}

/// Reduces one vendor booking snapshot to its stable record: the mapper. It
/// is total — every snapshot yields exactly one record, with no filtering on
/// the status code.
pub fn map_booking(b: &Booking) -> (r: ReservationRecord)
    ensures
        r@ == spec_map_booking(*b),
{
    let mut options: Vec<String> = Vec::new();
    let n = b.options.len();
    let mut i: usize = 0;
    while i < n
        invariant
            i <= n,
            n == b.options@.len(),
            options@.len() == i as int,
            options.deep_view() == spec_option_names(b.options@.take(i as int)),
        decreases n - i,
    {
        options.push(b.options[i].name.clone());
        proof {
            assert(b.options@.take(i as int + 1) =~= b.options@.take(i as int).push(
                b.options@[i as int],
            ));
            assert forall|k: int| 0 <= k <= i as int implies options.deep_view()[k]
                == spec_option_names(b.options@.take(i as int + 1))[k] by {
                if k < i as int {
                    assert(options.deep_view()[k] == options@[k]@);
                    assert(options.deep_view()[k] == spec_option_names(
                        b.options@.take(i as int),
                    )[k]);
                } else {
                    assert(options@[k] == b.options@[i as int].name);
                }
            }
            assert(options.deep_view() =~= spec_option_names(b.options@.take(i as int + 1)));
        }
        i = i + 1;
    }
    proof {
        assert(b.options@.take(n as int) =~= b.options@);
    }
    let r = ReservationRecord {
        id: b.booking_id,
        business_id: b.business_id,
        business_name: b.service_name.clone(),
        item_id: b.business_item_id,
        item_name: b.business_item_name.clone(),
        start_date_time: b.start_date_time,
        end_date_time: b.end_date_time,
        options,
        location: b.business_address_json.road_addr.clone(),
    };
    r
}

/// Law: the mapper is deterministic — equal vendor snapshots yield equal
/// records. Together with `map_booking`'s contract, which pins one record
/// for every snapshot, this is the mapper's totality and purity.
pub proof fn lemma_mapper_deterministic(a: Booking, b: Booking)
    requires
        a == b,
    ensures
        spec_map_booking(a) == spec_map_booking(b),
{
}

} // verus!
