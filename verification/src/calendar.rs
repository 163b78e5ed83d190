//! The calendar renderer: one event per stored record, wrapped in a document
//! that declares the UTC timezone once. Rendering is a pure function of the
//! record sequence and its order.

use vstd::prelude::*;
use vstd::string::StringExecFns;
use crate::record::RecordView;
use crate::record::ReservationRecord;
use crate::text::spec_dec_int;
use crate::text::dec_i64_string;

verus! {

/// The options joined by newlines, as the description field carries them.
pub open spec fn spec_joined_options(opts: Seq<Seq<char>>) -> Seq<char>
    decreases opts.len(),
{
    if opts.len() == 0 {
        Seq::empty()
    } else if opts.len() == 1 {
        opts[0]
    } else {
        opts[0] + seq!['\n'] + spec_joined_options(opts.skip(1))
    }
}

/// One calendar event: the reservation identifier as the stable event
/// identifier, the summary joining business and item name, the description
/// joining the options, and both instants in the compact UTC form, tagged
/// with the UTC timezone.
pub open spec fn spec_render_event(r: RecordView) -> Seq<char> {
    "BEGIN:VEVENT\r\nUID:"@ + spec_dec_int(r.id) + "\r\nDTSTAMP:"@
        + r.start_date_time.spec_basic_format() + "\r\nSUMMARY:"@ + r.business_name + " - "@
        + r.item_name + "\r\nDESCRIPTION:"@ + spec_joined_options(r.options)
        + "\r\nDTSTART;TZID=UTC:"@ + r.start_date_time.spec_basic_format()
        + "\r\nDTEND;TZID=UTC:"@ + r.end_date_time.spec_basic_format() + "\r\nEND:VEVENT\r\n"@
}

/// The document's head: version and producer, and the one UTC timezone
/// definition the events refer to.
pub open spec fn spec_calendar_head() -> Seq<char> {
    "BEGIN:VCALENDAR\r\nVERSION:2.0\r\nPRODID:kawai\r\nBEGIN:VTIMEZONE\r\nTZID:UTC\r\nBEGIN:STANDARD\r\nDTSTART:19700101T000000\r\nTZOFFSETFROM:+0000\r\nTZOFFSETTO:+0000\r\nEND:STANDARD\r\nEND:VTIMEZONE\r\n"@
}

/// The document's foot.
pub open spec fn spec_calendar_foot() -> Seq<char> {
    "END:VCALENDAR\r\n"@
}

/// The events, one per record, in the given order.
pub open spec fn spec_render_events(rs: Seq<RecordView>) -> Seq<char>
    decreases rs.len(),
{
    if rs.len() == 0 {
        Seq::empty()
    } else {
        spec_render_event(rs[0]) + spec_render_events(rs.skip(1))
    }
}

/// The whole calendar document for the given records, in the given order.
pub open spec fn spec_render_calendar(rs: Seq<RecordView>) -> Seq<char> {
    spec_calendar_head() + spec_render_events(rs) + spec_calendar_foot()
}

/// Rendering one more record appends its event.
proof fn lemma_render_events_snoc(rs: Seq<RecordView>, r: RecordView)
    ensures
        spec_render_events(rs.push(r)) == spec_render_events(rs) + spec_render_event(r),
    decreases rs.len(),
{
    if rs.len() == 0 {
        assert(rs.push(r)[0] == r);
        assert(rs.push(r).skip(1) =~= Seq::<RecordView>::empty());
        assert(spec_render_events(Seq::<RecordView>::empty()) == Seq::<char>::empty());
        assert(spec_render_events(rs.push(r)) =~= spec_render_events(rs) + spec_render_event(r));
    } else {
        lemma_render_events_snoc(rs.skip(1), r);
        assert(rs.push(r)[0] == rs[0]);
        assert(rs.push(r).skip(1) =~= rs.skip(1).push(r));
        assert(spec_render_events(rs.push(r)) =~= spec_render_events(rs) + spec_render_event(r));
    }
}

/// Joins the options by newlines for the description field.
fn joined_options(opts: &Vec<String>) -> (r: String)
    ensures
        r@ == spec_joined_options(opts.deep_view()),
{
    proof {
        assert(opts.deep_view().skip(0) =~= opts.deep_view());
    }
    joined_options_from(opts, 0)
}

/// Joins the options from index `i` on.
fn joined_options_from(opts: &Vec<String>, i: usize) -> (r: String)
    requires
        i <= opts@.len(),
    ensures
        r@ == spec_joined_options(opts.deep_view().skip(i as int)),
    decreases opts@.len() - i,
{
    let n = opts.len();
    if i == n {
        String::new()
    } else {
        proof {
            assert(opts.deep_view().skip(i as int)[0] == opts@[i as int]@);
            assert(opts.deep_view().skip(i as int).skip(1) =~= opts.deep_view().skip(
                i as int + 1,
            ));
        }
        let head = opts[i].clone();
        if i + 1 == n {
            assert(head@ =~= spec_joined_options(opts.deep_view().skip(i as int)));
            head
        } else {
            proof {
                reveal_strlit("\n");
            }
            let r = head.concat("\n").concat(joined_options_from(opts, i + 1).as_str());
            assert(r@ =~= spec_joined_options(opts.deep_view().skip(i as int)));
            r
        }
    }
}

/// Renders one calendar event.
pub fn render_event(rec: &ReservationRecord) -> (r: String)
    requires
        rec@.wf(),
    ensures
        r@ == spec_render_event(rec@),
{
    let mut out = "BEGIN:VEVENT\r\nUID:".to_owned();
    out.append(dec_i64_string(rec.id).as_str());
    out.append("\r\nDTSTAMP:");
    out.append(rec.start_date_time.basic_format().as_str());
    out.append("\r\nSUMMARY:");
    out.append(rec.business_name.as_str());
    out.append(" - ");
    out.append(rec.item_name.as_str());
    out.append("\r\nDESCRIPTION:");
    out.append(joined_options(&rec.options).as_str());
    out.append("\r\nDTSTART;TZID=UTC:");
    out.append(rec.start_date_time.basic_format().as_str());
    out.append("\r\nDTEND;TZID=UTC:");
    out.append(rec.end_date_time.basic_format().as_str());
    out.append("\r\nEND:VEVENT\r\n");
    assert(out@ =~= spec_render_event(rec@));
    out
}

/// Renders the whole calendar document for the records, in their order.
#[verifier::rlimit(60)]
pub fn render_calendar(records: &Vec<ReservationRecord>) -> (r: String)
    requires
        forall|k: int| 0 <= k < records@.len() ==> records.deep_view()[k].wf(),
    ensures
        r@ == spec_render_calendar(records.deep_view()),
{
    let mut out =
        "BEGIN:VCALENDAR\r\nVERSION:2.0\r\nPRODID:kawai\r\nBEGIN:VTIMEZONE\r\nTZID:UTC\r\nBEGIN:STANDARD\r\nDTSTART:19700101T000000\r\nTZOFFSETFROM:+0000\r\nTZOFFSETTO:+0000\r\nEND:STANDARD\r\nEND:VTIMEZONE\r\n".to_owned();
    let n = records.len();
    let mut i: usize = 0;
    proof {
        assert(records.deep_view().take(0) =~= Seq::<RecordView>::empty());
    }
    while i < n
        invariant
            i <= n,
            n == records@.len(),
            forall|k: int| 0 <= k < records@.len() ==> records.deep_view()[k].wf(),
            out@ == spec_calendar_head() + spec_render_events(records.deep_view().take(i as int)),
        decreases n - i,
    {
        proof {
            assert(records.deep_view()[i as int] == records@[i as int]@);
            lemma_render_events_snoc(
                records.deep_view().take(i as int),
                records.deep_view()[i as int],
            );
            assert(records.deep_view().take(i as int + 1) =~= records.deep_view().take(
                i as int,
            ).push(records.deep_view()[i as int]));
        }
        let ev = render_event(&records[i]);
        out.append(ev.as_str());
        i = i + 1;
    }
    proof {
        assert(records.deep_view().take(n as int) =~= records.deep_view());
    }
    out.append("END:VCALENDAR\r\n");
    assert(out@ =~= spec_render_calendar(records.deep_view()));
    out
}

/// Law: rendering is deterministic — the same records in the same order
/// yield the identical document text.
pub proof fn lemma_render_deterministic(a: Seq<RecordView>, b: Seq<RecordView>)
    requires
        a == b,
    ensures
        spec_render_calendar(a) == spec_render_calendar(b),
{
}

} // verus!
