//! The two routes' decision logic: the fetch trigger, which maps and upserts
//! whatever the upstream call yielded and always reports success, and the
//! calendar route, which renders the store or reports an internal failure.

use vstd::prelude::*;
use crate::calendar::spec_render_calendar;
use crate::calendar::render_calendar;
use crate::record::map_booking;
use crate::record::spec_map_booking;
use crate::store::RowView;
use crate::store::Store;
use crate::store::dec_rows;
use crate::store::enc_row;
use crate::store::spec_upsert;
use crate::vendor::BookingWrap;

verus! {

/// Why a fetch cycle failed upstream: network failure or a response shape
/// that did not parse, with diagnostic context for the operator.
#[derive(Clone, Debug)]
pub struct UpstreamError {
    pub detail: String,
}

/// What a fetch cycle leaves in the store: each booking mapped and upserted,
/// in order.
pub open spec fn spec_ingest(rows: Seq<RowView>, bs: Seq<BookingWrap>) -> Seq<RowView>
    decreases bs.len(),
{
    if bs.len() == 0 {
        rows
    } else {
        spec_ingest(
            spec_upsert(rows, enc_row(spec_map_booking(bs[0].snapshot_json))),
            bs.skip(1),
        )
    }
}

/// Ingesting one more booking upserts its mapped record at the end.
proof fn lemma_ingest_snoc(rows: Seq<RowView>, bs: Seq<BookingWrap>, b: BookingWrap)
    ensures
        spec_ingest(rows, bs.push(b)) == spec_upsert(
            spec_ingest(rows, bs),
            enc_row(spec_map_booking(b.snapshot_json)),
        ),
    decreases bs.len(),
{
    if bs.len() == 0 {
        assert(bs.push(b)[0] == b);
        assert(bs.push(b).skip(1) =~= Seq::<BookingWrap>::empty());
        assert(spec_ingest(
            spec_upsert(rows, enc_row(spec_map_booking(b.snapshot_json))),
            Seq::<BookingWrap>::empty(),
        ) == spec_upsert(rows, enc_row(spec_map_booking(b.snapshot_json))));
    } else {
        lemma_ingest_snoc(
            spec_upsert(rows, enc_row(spec_map_booking(bs[0].snapshot_json))),
            bs.skip(1),
            b,
        );
        assert(bs.push(b)[0] == bs[0]);
        assert(bs.push(b).skip(1) =~= bs.skip(1).push(b));
    }
}

/// The fetch trigger: maps and upserts every booking the upstream call
/// yielded, in order; after a failed call the store stands unchanged. Either
/// way the route reports success with an empty body — export must not depend
/// on fetch outcome, and a failure is the caller's to log.
pub fn handle_fetch_trigger(store: &mut Store, outcome: Result<Vec<BookingWrap>, UpstreamError>) -> (r:
    (u16, String))
    requires
        old(store).wf(),
        outcome matches Ok(bs) ==> forall|k: int| 0 <= k < bs@.len() ==> bs@[k].wf(),
    ensures
        final(store).wf(),
        r.0 == 200,
        r.1@ == Seq::<char>::empty(),
        match outcome {
            Ok(bs) => final(store).rows_view() == spec_ingest(old(store).rows_view(), bs@),
            Err(_) => *final(store) == *old(store),
        },
{
    match outcome {
        Err(_) => (200, String::new()),
        Ok(bookings) => {
            let ghost rows0 = store.rows_view();
            let n = bookings.len();
            let mut i: usize = 0;
            proof {
                assert(bookings@.take(0) =~= Seq::<BookingWrap>::empty());
            }
            while i < n
                invariant
                    i <= n,
                    n == bookings@.len(),
                    forall|k: int| 0 <= k < bookings@.len() ==> bookings@[k].wf(),
                    store.wf(),
                    store.rows_view() == spec_ingest(rows0, bookings@.take(i as int)),
                decreases n - i,
            {
                proof {
                    lemma_ingest_snoc(rows0, bookings@.take(i as int), bookings@[i as int]);
                    assert(bookings@.take(i as int + 1) =~= bookings@.take(i as int).push(
                        bookings@[i as int],
                    ));
                }
                let rec = map_booking(&bookings[i].snapshot_json);
                store.upsert(&rec);
                i = i + 1;
            }
            proof {
                assert(bookings@.take(n as int) =~= bookings@);
            }
            (200, String::new())
        },
    }
}

/// The calendar route: renders every stored record, in store order, as the
/// calendar document; a row whose options text does not decode is an
/// internal failure, reported with an empty body.
pub fn handle_calendar_request(store: &Store) -> (r: (u16, String))
    requires
        store.wf(),
    ensures
        match dec_rows(store.rows_view()) {
            Some(recs) => r.0 == 200 && r.1@ == spec_render_calendar(recs),
            None => r.0 == 500 && r.1@ == Seq::<char>::empty(),
        },
{
    match store.list_all() {
        Ok(records) => {
            let body = render_calendar(&records);
            (200, body)
        },
        Err(_) => (500, String::new()),
    }
}

} // verus!
