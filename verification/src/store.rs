//! The reservation store: rows held in insertion order and keyed by the
//! reservation identifier. An upsert replaces the row with the same
//! identifier in place, or appends a new one; reading back decodes every
//! row's serialized options, surfacing a decode error rather than dropping a
//! malformed row.

use vstd::prelude::*;
use crate::codec::DecodeError;
use crate::codec::decode_options;
use crate::codec::encode_options;
use crate::codec::lemma_options_round_trip;
use crate::codec::spec_decode_options;
use crate::codec::spec_encode_options;
use crate::datetime::UtcDateTime;
use crate::record::RecordView;
use crate::record::ReservationRecord;

verus! {

/// One stored row: the record fields with the options in their serialized
/// text form, as the backing table holds them.
#[derive(Clone, Debug)]
pub struct StoredRow {
    pub id: i64,
    pub business_id: i64,
    pub business_name: String,
    pub item_id: i64,
    pub item_name: String,
    pub start_date_time: UtcDateTime,
    pub end_date_time: UtcDateTime,
    pub options_text: String,
    pub location: String,
}

/// The mathematical content of a stored row.
pub ghost struct RowView {
    pub id: int,
    pub business_id: int,
    pub business_name: Seq<char>,
    pub item_id: int,
    pub item_name: Seq<char>,
    pub start_date_time: UtcDateTime,
    pub end_date_time: UtcDateTime,
    pub options_text: Seq<char>,
    pub location: Seq<char>,
}

impl RowView {
    /// Both timestamps carry meaningful calendar fields.
    pub open spec fn wf(self) -> bool {
        self.start_date_time.wf() && self.end_date_time.wf()
    }
}

impl View for StoredRow {
    type V = RowView;

    open spec fn view(&self) -> RowView {
        RowView {
            id: self.id as int,
            business_id: self.business_id as int,
            business_name: self.business_name@,
            item_id: self.item_id as int,
            item_name: self.item_name@,
            start_date_time: self.start_date_time,
            end_date_time: self.end_date_time,
            options_text: self.options_text@,
            location: self.location@,
        }
    }
}

impl DeepView for StoredRow {
    type V = RowView;

    open spec fn deep_view(&self) -> RowView {
        self.view()
    }
}

/// The row a record is stored as: the same fields, the options serialized.
pub open spec fn enc_row(r: RecordView) -> RowView {
    RowView {
        id: r.id,
        business_id: r.business_id,
        business_name: r.business_name,
        item_id: r.item_id,
        item_name: r.item_name,
        start_date_time: r.start_date_time,
        end_date_time: r.end_date_time,
        options_text: spec_encode_options(r.options),
        location: r.location,
    }
}

/// The record a row reads back as, if its options text is well formed.
pub open spec fn dec_row(row: RowView) -> Option<RecordView> {
    match spec_decode_options(row.options_text) {
        Some(opts) => Some(
            RecordView {
                id: row.id,
                business_id: row.business_id,
                business_name: row.business_name,
                item_id: row.item_id,
                item_name: row.item_name,
                start_date_time: row.start_date_time,
                end_date_time: row.end_date_time,
                options: opts,
                location: row.location,
            },
        ),
        None => None,
    }
}

/// Law: a record stored as a row reads back unchanged — in particular the
/// options come back as the identical sequence in the identical order.
pub proof fn lemma_record_round_trip(r: RecordView)
    ensures
        dec_row(enc_row(r)) == Some(r),
{
    lemma_options_round_trip(r.options);
}

/// No two rows share an identifier.
pub open spec fn unique_ids(rows: Seq<RowView>) -> bool {
    forall|j: int, k: int| 0 <= j < k < rows.len() ==> rows[j].id != rows[k].id
}

/// Whether some row holds `id`.
pub open spec fn has_id(rows: Seq<RowView>, id: int) -> bool {
    exists|k: int| 0 <= k < rows.len() && rows[k].id == id
}

/// How many rows hold `id`.
pub open spec fn count_id(rows: Seq<RowView>, id: int) -> nat
    decreases rows.len(),
{
    if rows.len() == 0 {
        0
    } else {
        (if rows[0].id == id {
            1nat
        } else {
            0nat
        }) + count_id(rows.skip(1), id)
    }
}

/// Insert-or-replace keyed on the identifier: the first row with the same
/// identifier is replaced in place; with none there the row goes to the end.
pub open spec fn spec_upsert(rows: Seq<RowView>, row: RowView) -> Seq<RowView>
    decreases rows.len(),
{
    if rows.len() == 0 {
        seq![row]
    } else if rows[0].id == row.id {
        seq![row] + rows.skip(1)
    } else {
        seq![rows[0]] + spec_upsert(rows.skip(1), row)
    }
}

/// With the first match at index `i`, an upsert is an update in place there.
proof fn lemma_spec_upsert_found(rows: Seq<RowView>, row: RowView, i: int)
    requires
        0 <= i < rows.len(),
        rows[i].id == row.id,
        forall|k: int| 0 <= k < i ==> rows[k].id != row.id,
    ensures
        spec_upsert(rows, row) == rows.update(i, row),
    decreases i,
{
    if i == 0 {
        assert(seq![row] + rows.skip(1) =~= rows.update(0, row));
    } else {
        assert(rows[0].id != row.id);
        lemma_spec_upsert_found(rows.skip(1), row, i - 1);
        assert(seq![rows[0]] + rows.skip(1).update(i - 1, row) =~= rows.update(i, row));
    }
}

/// With no match anywhere, an upsert appends the row.
proof fn lemma_spec_upsert_missing(rows: Seq<RowView>, row: RowView)
    requires
        forall|k: int| 0 <= k < rows.len() ==> rows[k].id != row.id,
    ensures
        spec_upsert(rows, row) == rows.push(row),
    decreases rows.len(),
{
    if rows.len() == 0 {
        assert(seq![row] =~= rows.push(row));
    } else {
        lemma_spec_upsert_missing(rows.skip(1), row);
        assert(seq![rows[0]] + rows.skip(1).push(row) =~= rows.push(row));
    }
}

/// Every row an upsert leaves behind is the new row or one of the old ones;
/// in particular its identifier was there before or is the new row's.
proof fn lemma_upsert_id_set(rows: Seq<RowView>, row: RowView)
    ensures
        forall|k: int|
            0 <= k < spec_upsert(rows, row).len() ==> spec_upsert(rows, row)[k].id == row.id
                || has_id(rows, spec_upsert(rows, row)[k].id),
    decreases rows.len(),
{
    let res = spec_upsert(rows, row);
    if rows.len() == 0 {
    } else if rows[0].id == row.id {
        assert forall|k: int| 0 <= k < res.len() implies res[k].id == row.id || has_id(
            rows,
            res[k].id,
        ) by {
            if k > 0 {
                assert(res[k] == rows[k]);
            }
        }
    } else {
        lemma_upsert_id_set(rows.skip(1), row);
        let res1 = spec_upsert(rows.skip(1), row);
        assert forall|k: int| 0 <= k < res.len() implies res[k].id == row.id || has_id(
            rows,
            res[k].id,
        ) by {
            if k == 0 {
                assert(res[0] == rows[0]);
                assert(rows[0].id == rows[0].id);
            } else {
                assert(res[k] == res1[k - 1]);
                if res1[k - 1].id != row.id {
                    assert(has_id(rows.skip(1), res1[k - 1].id));
                    let j = choose|j: int|
                        0 <= j < rows.skip(1).len() && rows.skip(1)[j].id == res1[k - 1].id;
                    assert(rows[j + 1].id == res1[k - 1].id);
                }
            }
        }
    }
}

/// An upsert keeps the identifiers unique.
proof fn lemma_upsert_preserves_unique(rows: Seq<RowView>, row: RowView)
    requires
        unique_ids(rows),
    ensures
        unique_ids(spec_upsert(rows, row)),
    decreases rows.len(),
{
    let res = spec_upsert(rows, row);
    if rows.len() == 0 {
    } else if rows[0].id == row.id {
        assert forall|j: int, k: int| 0 <= j < k < res.len() implies res[j].id != res[k].id by {
            assert(res[k] == rows[k]);
            if j > 0 {
                assert(res[j] == rows[j]);
            }
        }
    } else {
        assert(unique_ids(rows.skip(1))) by {
            assert forall|j: int, k: int|
                0 <= j < k < rows.skip(1).len() implies rows.skip(1)[j].id != rows.skip(
                1,
            )[k].id by {
                assert(rows.skip(1)[j] == rows[j + 1]);
                assert(rows.skip(1)[k] == rows[k + 1]);
            }
        }
        lemma_upsert_preserves_unique(rows.skip(1), row);
        lemma_upsert_id_set(rows.skip(1), row);
        let res1 = spec_upsert(rows.skip(1), row);
        assert forall|j: int, k: int| 0 <= j < k < res.len() implies res[j].id != res[k].id by {
            if j == 0 {
                assert(res[k] == res1[k - 1]);
                if res1[k - 1].id == row.id {
                    assert(rows[0].id != row.id);
                } else {
                    assert(has_id(rows.skip(1), res1[k - 1].id));
                    let m = choose|m: int|
                        0 <= m < rows.skip(1).len() && rows.skip(1)[m].id == res1[k - 1].id;
                    assert(rows.skip(1)[m] == rows[m + 1]);
                    assert(rows[0].id != rows[m + 1].id);
                }
            } else {
                assert(res[j] == res1[j - 1]);
                assert(res[k] == res1[k - 1]);
            }
        }
    }
}

/// With no row holding `id`, the count for it is zero.
proof fn lemma_count_zero(rows: Seq<RowView>, id: int)
    requires
        forall|k: int| 0 <= k < rows.len() ==> rows[k].id != id,
    ensures
        count_id(rows, id) == 0,
    decreases rows.len(),
{
    if rows.len() > 0 {
        lemma_count_zero(rows.skip(1), id);
    }
}

/// Law: an upsert leaves exactly one row holding the record's identifier.
pub proof fn lemma_upsert_count_one(rows: Seq<RowView>, row: RowView)
    requires
        unique_ids(rows),
    ensures
        count_id(spec_upsert(rows, row), row.id) == 1,
    decreases rows.len(),
{
    let res = spec_upsert(rows, row);
    if rows.len() == 0 {
        assert(res[0] == row);
        assert(res.skip(1) =~= Seq::<RowView>::empty());
        assert(count_id(res.skip(1), row.id) == 0);
    } else if rows[0].id == row.id {
        assert(res[0] == row);
        assert(res.skip(1) =~= rows.skip(1));
        assert(forall|k: int| 0 <= k < rows.skip(1).len() ==> rows.skip(1)[k].id != row.id) by {
            assert forall|k: int| 0 <= k < rows.skip(1).len() implies rows.skip(1)[k].id
                != row.id by {
                assert(rows.skip(1)[k] == rows[k + 1]);
            }
        }
        lemma_count_zero(rows.skip(1), row.id);
    } else {
        assert(unique_ids(rows.skip(1))) by {
            assert forall|j: int, k: int|
                0 <= j < k < rows.skip(1).len() implies rows.skip(1)[j].id != rows.skip(
                1,
            )[k].id by {
                assert(rows.skip(1)[j] == rows[j + 1]);
                assert(rows.skip(1)[k] == rows[k + 1]);
            }
        }
        lemma_upsert_count_one(rows.skip(1), row);
        assert(res[0] == rows[0]);
        assert(res.skip(1) =~= spec_upsert(rows.skip(1), row));
        assert(count_id(res, row.id) == count_id(spec_upsert(rows.skip(1), row), row.id));
    }
}

/// Law: after an upsert, every row holding the record's identifier holds
/// exactly the record's values — the last write wins.
pub proof fn lemma_upsert_last_write(rows: Seq<RowView>, row: RowView)
    requires
        unique_ids(rows),
    ensures
        forall|k: int|
            0 <= k < spec_upsert(rows, row).len() && spec_upsert(rows, row)[k].id == row.id
                ==> spec_upsert(rows, row)[k] == row,
    decreases rows.len(),
{
    let res = spec_upsert(rows, row);
    if rows.len() == 0 {
    } else if rows[0].id == row.id {
        assert forall|k: int| 0 <= k < res.len() && res[k].id == row.id implies res[k] == row by {
            if k > 0 {
                assert(res[k] == rows[k]);
                assert(rows[0].id != rows[k].id);
            }
        }
    } else {
        assert(unique_ids(rows.skip(1))) by {
            assert forall|j: int, k: int|
                0 <= j < k < rows.skip(1).len() implies rows.skip(1)[j].id != rows.skip(
                1,
            )[k].id by {
                assert(rows.skip(1)[j] == rows[j + 1]);
                assert(rows.skip(1)[k] == rows[k + 1]);
            }
        }
        lemma_upsert_last_write(rows.skip(1), row);
        let res1 = spec_upsert(rows.skip(1), row);
        assert forall|k: int| 0 <= k < res.len() && res[k].id == row.id implies res[k] == row by {
            if k > 0 {
                assert(res[k] == res1[k - 1]);
            }
        }
    }
}

/// Law: upserting the same row twice leaves the store exactly as one upsert
/// does.
pub proof fn lemma_upsert_idempotent(rows: Seq<RowView>, row: RowView)
    requires
        unique_ids(rows),
    ensures
        spec_upsert(spec_upsert(rows, row), row) == spec_upsert(rows, row),
    decreases rows.len(),
{
    let once = spec_upsert(rows, row);
    if rows.len() == 0 {
        assert(once[0] == row);
        assert(spec_upsert(once, row) == seq![row] + once.skip(1));
        assert(seq![row] + once.skip(1) =~= once);
    } else if rows[0].id == row.id {
        assert(once[0] == row);
        assert(spec_upsert(once, row) == seq![row] + once.skip(1));
        assert(seq![row] + once.skip(1) =~= once);
    } else {
        assert(unique_ids(rows.skip(1))) by {
            assert forall|j: int, k: int|
                0 <= j < k < rows.skip(1).len() implies rows.skip(1)[j].id != rows.skip(
                1,
            )[k].id by {
                assert(rows.skip(1)[j] == rows[j + 1]);
                assert(rows.skip(1)[k] == rows[k + 1]);
            }
        }
        lemma_upsert_idempotent(rows.skip(1), row);
        assert(once[0] == rows[0]);
        assert(once.skip(1) =~= spec_upsert(rows.skip(1), row));
        assert(spec_upsert(once, row) == seq![rows[0]] + spec_upsert(once.skip(1), row));
        assert(seq![rows[0]] + spec_upsert(rows.skip(1), row) =~= once);
    }
}

/// The records a row sequence reads back as, if every row's options text is
/// well formed.
pub open spec fn dec_rows(rows: Seq<RowView>) -> Option<Seq<RecordView>>
    decreases rows.len(),
{
    if rows.len() == 0 {
        Some(Seq::empty())
    } else {
        match (dec_row(rows[0]), dec_rows(rows.skip(1))) {
            (Some(r), Some(tail)) => Some(seq![r] + tail),
            _ => None,
        }
    }
}

/// Reading back one more row appends its record, or fails if any fails.
proof fn lemma_dec_rows_snoc(rows: Seq<RowView>, row: RowView)
    ensures
        dec_rows(rows.push(row)) == (match (dec_rows(rows), dec_row(row)) {
            (Some(a), Some(b)) => Some(a.push(b)),
            _ => None,
        }),
    decreases rows.len(),
{
    if rows.len() == 0 {
        assert(rows.push(row)[0] == row);
        assert(rows.push(row).skip(1) =~= Seq::<RowView>::empty());
        assert(dec_rows(Seq::<RowView>::empty()) == Some(Seq::<RecordView>::empty()));
        match dec_row(row) {
            Some(b) => {
                assert(seq![b] + Seq::<RecordView>::empty() =~= Seq::<RecordView>::empty().push(
                    b,
                ));
            },
            None => {},
        }
    } else {
        lemma_dec_rows_snoc(rows.skip(1), row);
        assert(rows.push(row)[0] == rows[0]);
        assert(rows.push(row).skip(1) =~= rows.skip(1).push(row));
        assert(dec_rows(rows.push(row)) == (match (dec_row(rows[0]), dec_rows(
            rows.skip(1).push(row),
        )) {
            (Some(r0), Some(tail2)) => Some(seq![r0] + tail2),
            _ => None,
        }));
        match (dec_row(rows[0]), dec_rows(rows.skip(1)), dec_row(row)) {
            (Some(r0), Some(tail), Some(b)) => {
                assert(dec_rows(rows.skip(1).push(row)) == Some(tail.push(b)));
                assert(dec_rows(rows) == Some(seq![r0] + tail));
                assert(seq![r0] + tail.push(b) =~= (seq![r0] + tail).push(b));
                assert(dec_rows(rows.push(row)) == Some((seq![r0] + tail).push(b)));
            },
            _ => {
                assert(dec_rows(rows.push(row)) is None);
                assert((match (dec_rows(rows), dec_row(row)) {
                    (Some(a), Some(b)) => Some(a.push(b)),
                    _ => None,
                }) is None);
            },
        }
    }
}

/// One malformed row fails the whole read-back.
proof fn lemma_dec_rows_fails(rows: Seq<RowView>, i: int)
    requires
        0 <= i < rows.len(),
        dec_row(rows[i]) is None,
    ensures
        dec_rows(rows) is None,
    decreases rows.len(),
{
    if i > 0 {
        assert(rows.skip(1)[i - 1] == rows[i]);
        lemma_dec_rows_fails(rows.skip(1), i - 1);
    }
}

/// The reservation store.
#[derive(Debug)]
pub struct Store {
    rows: Vec<StoredRow>,
}

impl Store {
    /// The rows' mathematical content, in store order.
    pub closed spec fn rows_view(&self) -> Seq<RowView> {
        self.rows.deep_view()
    }

    /// The store invariant: identifiers unique and timestamps well formed.
    pub open spec fn wf(&self) -> bool {
        &&& unique_ids(self.rows_view())
        &&& forall|k: int| 0 <= k < self.rows_view().len() ==> self.rows_view()[k].wf()
    }

    /// A fresh, empty store.
    pub fn new() -> (r: Store)
        ensures
            r.wf(),
            r.rows_view() == Seq::<RowView>::empty(),
    {
        let r = Store { rows: Vec::new() };
        assert(r.rows_view() =~= Seq::<RowView>::empty());
        r
    }

    /// The index of the first row holding `id`, if any.
    fn find_index(&self, id: i64) -> (r: Option<usize>)
        ensures
            match r {
                Some(i) => i < self.rows_view().len() && self.rows_view()[i as int].id == id as int
                    && forall|k: int| 0 <= k < i ==> self.rows_view()[k].id != id as int,
                None => !has_id(self.rows_view(), id as int),
            },
    {
        let n = self.rows.len();
        let mut i: usize = 0;
        while i < n
            invariant
                i <= n,
                n == self.rows@.len(),
                forall|k: int| 0 <= k < i ==> self.rows.deep_view()[k].id != id as int,
            decreases n - i,
        {
            if self.rows[i].id == id {
                assert(self.rows.deep_view()[i as int] == self.rows@[i as int]@);
                return Some(i);
            }
            assert(self.rows.deep_view()[i as int] == self.rows@[i as int]@);
            i = i + 1;
        }
        None
    }

    /// Inserts or replaces a raw row, keyed on its identifier. This is the
    /// loading path for rows whose options text has not been checked.
    pub fn load_row(&mut self, row: StoredRow)
        requires
            old(self).wf(),
            row@.wf(),
        ensures
            final(self).wf(),
            final(self).rows_view() == spec_upsert(old(self).rows_view(), row@),
    {
        let ghost pre = self.rows_view();
        let ghost rv = row@;
        proof {
            lemma_upsert_preserves_unique(pre, rv);
        }
        match self.find_index(row.id) {
            Some(i) => {
                proof {
                    lemma_spec_upsert_found(pre, rv, i as int);
                }
                self.rows.set(i, row);
                assert(self.rows_view() =~= pre.update(i as int, rv));
            },
            None => {
                proof {
                    assert(forall|k: int| 0 <= k < pre.len() ==> pre[k].id != rv.id);
                    lemma_spec_upsert_missing(pre, rv);
                }
                self.rows.push(row);
                assert(self.rows_view() =~= pre.push(rv));
            },
        }
        assert forall|k: int| 0 <= k < self.rows_view().len() implies self.rows_view()[k].wf() by {
            if self.rows_view()[k] != rv {
                assert(pre.contains(self.rows_view()[k])) by {
                    lemma_upsert_id_set(pre, rv);
                }
            }
        }
    }

    /// Inserts or replaces the record, keyed on its identifier: the upsert.
    pub fn upsert(&mut self, rec: &ReservationRecord)
        requires
            old(self).wf(),
            rec@.wf(),
        ensures
            final(self).wf(),
            final(self).rows_view() == spec_upsert(old(self).rows_view(), enc_row(rec@)),
    {
        let row = StoredRow {
            id: rec.id,
            business_id: rec.business_id,
            business_name: rec.business_name.clone(),
            item_id: rec.item_id,
            item_name: rec.item_name.clone(),
            start_date_time: rec.start_date_time,
            end_date_time: rec.end_date_time,
            options_text: encode_options(&rec.options),
            location: rec.location.clone(),
        };
        assert(row@ == enc_row(rec@));
        self.load_row(row);
    }

    /// Reads back every stored record, in store order; a malformed options
    /// text in any row is a decode error, not a dropped row.
    pub fn list_all(&self) -> (r: Result<Vec<ReservationRecord>, DecodeError>)
        requires
            self.wf(),
        ensures
            match r {
                Ok(recs) => dec_rows(self.rows_view()) == Some(recs.deep_view()) && forall|k: int|
                    0 <= k < recs.deep_view().len() ==> recs.deep_view()[k].wf(),
                Err(_) => dec_rows(self.rows_view()) is None,
            },
    {
        let mut out: Vec<ReservationRecord> = Vec::new();
        let n = self.rows.len();
        let mut i: usize = 0;
        proof {
            assert(self.rows_view().take(0) =~= Seq::<RowView>::empty());
        }
        while i < n
            invariant
                i <= n,
                n == self.rows@.len(),
                self.wf(),
                out@.len() == i,
                dec_rows(self.rows_view().take(i as int)) == Some(out.deep_view()),
                forall|k: int| 0 <= k < out@.len() ==> out.deep_view()[k].wf(),
            decreases n - i,
        {
            let ghost pre_dv = out.deep_view();
            let row = &self.rows[i];
            assert(row@ == self.rows_view()[i as int]);
            match decode_options(row.options_text.as_str()) {
                Err(e) => {
                    proof {
                        lemma_dec_rows_fails(self.rows_view(), i as int);
                    }
                    return Err(e);
                },
                Ok(opts) => {
                    let rec = ReservationRecord {
                        id: row.id,
                        business_id: row.business_id,
                        business_name: row.business_name.clone(),
                        item_id: row.item_id,
                        item_name: row.item_name.clone(),
                        start_date_time: row.start_date_time,
                        end_date_time: row.end_date_time,
                        options: opts,
                        location: row.location.clone(),
                    };
                    proof {
                        assert(Some(rec@) == dec_row(self.rows_view()[i as int]));
                        lemma_dec_rows_snoc(
                            self.rows_view().take(i as int),
                            self.rows_view()[i as int],
                        );
                        assert(self.rows_view().take(i as int + 1) =~= self.rows_view().take(
                            i as int,
                        ).push(self.rows_view()[i as int]));
                        assert(rec@.wf());
                    }
                    out.push(rec);
                    assert(out.deep_view() =~= pre_dv.push(rec@));
                },
            }
            i = i + 1;
        }
        proof {
            assert(self.rows_view().take(n as int) =~= self.rows_view());
        }
        Ok(out)
    }
}

} // verus!
