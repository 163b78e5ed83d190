//! The text of one outbound query against the booking endpoint: the cookie
//! header carrying the session tokens, and the JSON payload holding the fixed
//! query document and the serialized fetch options.

use vstd::prelude::*;
use vstd::string::StringExecFns;
use crate::datetime::UtcDateTime;
use crate::text::spec_dec_nat;
use crate::text::dec_u64_string;
use crate::vendor::FetchOption;
use crate::vendor::ReservationStatusCode;
use crate::vendor::UserAuth;

verus! {

/// The cookie header naming the two session tokens.
pub open spec fn spec_cookie_header(aut: Seq<char>, ses: Seq<char>) -> Seq<char> {
    "NID_AUT="@ + aut + "; NID_SES="@ + ses
}

impl UserAuth {
    /// Renders the cookie header that authenticates an outbound call.
    pub fn cookie_header(&self) -> (r: String)
        ensures
            r@ == spec_cookie_header(self.aut@, self.ses@),
    {
        let r = "NID_AUT=".to_owned().concat(self.aut.as_str()).concat("; NID_SES=").concat(
            self.ses.as_str(),
        );
        assert(r@ =~= spec_cookie_header(self.aut@, self.ses@));
        r
    }
}

/// The requested status codes joined by commas, in the given order.
pub open spec fn spec_joined_codes(qs: Seq<ReservationStatusCode>) -> Seq<char>
    decreases qs.len(),
{
    if qs.len() == 0 {
        Seq::empty()
    } else if qs.len() == 1 {
        qs[0].spec_code()
    } else {
        qs[0].spec_code() + seq![','] + spec_joined_codes(qs.skip(1))
    }
}

/// Joins the requested status codes' wire codes by commas.
pub fn joined_codes(qs: &Vec<ReservationStatusCode>) -> (r: String)
    ensures
        r@ == spec_joined_codes(qs@),
{
    proof {
        assert(qs@.skip(0) =~= qs@);
    }
    joined_codes_from(qs, 0)
}

/// Joins the wire codes from index `i` on.
fn joined_codes_from(qs: &Vec<ReservationStatusCode>, i: usize) -> (r: String)
    requires
        i <= qs@.len(),
    ensures
        r@ == spec_joined_codes(qs@.skip(i as int)),
    decreases qs@.len() - i,
{
    let n = qs.len();
    if i == n {
        String::new()
    } else {
        proof {
            assert(qs@.skip(i as int)[0] == qs@[i as int]);
            assert(qs@.skip(i as int).skip(1) =~= qs@.skip(i as int + 1));
        }
        let head = qs[i].code().to_owned();
        if i + 1 == n {
            assert(head@ =~= spec_joined_codes(qs@.skip(i as int)));
            head
        } else {
            proof {
                reveal_strlit(",");
            }
            let r = head.concat(",").concat(joined_codes_from(qs, i + 1).as_str());
            assert(r@ =~= spec_joined_codes(qs@.skip(i as int)));
            r
        }
    }
}

/// An optional date bound as it stands in the payload: the quoted RFC 3339
/// instant, or the JSON null.
pub open spec fn spec_date_json(d: Option<UtcDateTime>) -> Seq<char> {
    match d {
        Option::None => "null"@,
        Option::Some(t) => seq!['"'] + t.spec_rfc3339() + seq!['"'],
    }
}

/// Renders an optional date bound for the payload.
fn date_json(d: &Option<UtcDateTime>) -> (r: String)
    requires
        *d matches Some(t) ==> t.wf(),
    ensures
        r@ == spec_date_json(*d),
{
    match d {
        Option::None => "null".to_owned(),
        Option::Some(t) => {
            proof {
                reveal_strlit("\"");
            }
            let r = "\"".to_owned().concat(t.rfc3339().as_str()).concat("\"");
            assert(r@ =~= spec_date_json(*d));
            r
        },
    }
}

/// The fixed query document, as it stands JSON-escaped inside the payload.
pub open spec fn spec_query_doc() -> Seq<char> {
    "query bookings($input: BookingParams) {\\n            booking(input: $input) {\\n              id\\n              totalCount\\n              bookings {\\n                bookingId\\n                businessName\\n                serviceName\\n                bookingStatusCode\\n                isCompleted\\n                startDate\\n                endDate\\n                regDateTime\\n                completedDateTime\\n                cancelledDateTime\\n                snapshotJson\\n                business {\\n                  addressJson\\n                  completedPinValue\\n                  name\\n                  serviceName\\n                  isImp\\n                  isDeleted\\n                  isCompletedButtonImp\\n                  phoneInformationJson\\n                }\\n              }\\n            }\\n          }\\n          "@
}

/// The JSON payload of one bookings query: the fixed operation name and
/// query document around the serialized fetch options.
pub open spec fn spec_payload(option: FetchOption) -> Seq<char> {
    "{\"operationName\":\"bookings\",\"variables\":{\"input\":{\"queryType\":\""@
        + spec_joined_codes(option.query_types@)
        + "\",\"businessMainCategory\":\"ALL\",\"startDate\":"@ + spec_date_json(
        option.start_date,
    ) + ",\"endDate\":"@ + spec_date_json(option.end_date) + ",\"size\":"@ + spec_dec_nat(
        option.size as nat,
    ) + ",\"page\":"@ + spec_dec_nat(option.page as nat) + "}},\"query\":\""@ + spec_query_doc()
        + "\"}"@
}

/// Builds the JSON payload of one bookings query.
pub fn build_payload(option: &FetchOption) -> (r: String)
    requires
        option.wf(),
    ensures
        r@ == spec_payload(*option),
{
    let mut out =
        "{\"operationName\":\"bookings\",\"variables\":{\"input\":{\"queryType\":\"".to_owned();
    out.append(joined_codes(&option.query_types).as_str());
    out.append("\",\"businessMainCategory\":\"ALL\",\"startDate\":");
    out.append(date_json(&option.start_date).as_str());
    out.append(",\"endDate\":");
    out.append(date_json(&option.end_date).as_str());
    out.append(",\"size\":");
    out.append(dec_u64_string(option.size as u64).as_str());
    out.append(",\"page\":");
    out.append(dec_u64_string(option.page as u64).as_str());
    out.append("}},\"query\":\"");
    out.append(
        "query bookings($input: BookingParams) {\\n            booking(input: $input) {\\n              id\\n              totalCount\\n              bookings {\\n                bookingId\\n                businessName\\n                serviceName\\n                bookingStatusCode\\n                isCompleted\\n                startDate\\n                endDate\\n                regDateTime\\n                completedDateTime\\n                cancelledDateTime\\n                snapshotJson\\n                business {\\n                  addressJson\\n                  completedPinValue\\n                  name\\n                  serviceName\\n                  isImp\\n                  isDeleted\\n                  isCompletedButtonImp\\n                  phoneInformationJson\\n                }\\n              }\\n            }\\n          }\\n          ",
    );
    out.append("\"}");
    assert(out@ =~= spec_payload(*option));
    out
}

} // verus!
