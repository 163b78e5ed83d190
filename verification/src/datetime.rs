//! Plain calendar date and UTC timestamp values, with the two rendered forms
//! the system needs: the compact calendar form and the offset-free RFC 3339
//! form sent upstream.

use vstd::prelude::*;
use vstd::string::StringExecFns;
use crate::text::{
    spec_two_digits,
    spec_four_digits,
    two_digit_string,
    four_digit_string,
};

verus! {

/// A UTC instant at one-second precision, held as plain calendar fields.
/// Timestamps are converted to UTC once at the ingestion boundary and carried
/// in this shape from then on.
#[derive(Clone, Copy, Debug, PartialEq, Eq, Structural)]
pub struct UtcDateTime {
    pub year: u16,
    pub month: u8,
    pub day: u8,
    pub hour: u8,
    pub minute: u8,
    pub second: u8,
}

/// A calendar day without a time of day.
#[derive(Clone, Copy, Debug, PartialEq, Eq, Structural)]
pub struct Date {
    pub year: u16,
    pub month: u8,
    pub day: u8,
}

impl UtcDateTime {
    /// Field bounds under which both rendered forms are meaningful.
    pub open spec fn wf(self) -> bool {
        &&& self.year <= 9999
        &&& 1 <= self.month <= 12
        &&& 1 <= self.day <= 31
        &&& self.hour < 24
        &&& self.minute < 60
        &&& self.second < 60
    }

    /// The compact calendar timestamp: year, month, day, `T`, hour, minute,
    /// second, all zero-padded, with no offset suffix.
    pub open spec fn spec_basic_format(self) -> Seq<char> {
        spec_four_digits(self.year as nat) + spec_two_digits(self.month as nat) + spec_two_digits(
            self.day as nat,
        ) + seq!['T'] + spec_two_digits(self.hour as nat) + spec_two_digits(self.minute as nat)
            + spec_two_digits(self.second as nat)
    }

    /// The RFC 3339 rendering of the instant, with the `Z` suffix.
    pub open spec fn spec_rfc3339(self) -> Seq<char> {
        spec_four_digits(self.year as nat) + seq!['-'] + spec_two_digits(self.month as nat)
            + seq!['-'] + spec_two_digits(self.day as nat) + seq!['T'] + spec_two_digits(
            self.hour as nat,
        ) + seq![':'] + spec_two_digits(self.minute as nat) + seq![':'] + spec_two_digits(
            self.second as nat,
        ) + seq!['Z']
    }

    /// Renders the compact calendar timestamp.
    pub fn basic_format(&self) -> (r: String)
        requires
            self.wf(),
        ensures
            r@ == self.spec_basic_format(),
    {
        proof {
            reveal_strlit("T");
        }
        let r = four_digit_string(self.year as u64).concat(
            two_digit_string(self.month as u64).as_str(),
        ).concat(two_digit_string(self.day as u64).as_str()).concat("T").concat(
            two_digit_string(self.hour as u64).as_str(),
        ).concat(two_digit_string(self.minute as u64).as_str()).concat(
            two_digit_string(self.second as u64).as_str(),
        );
        assert(r@ =~= self.spec_basic_format());
        r
    }

    /// Renders the RFC 3339 form.
    pub fn rfc3339(&self) -> (r: String)
        requires
            self.wf(),
        ensures
            r@ == self.spec_rfc3339(),
    {
        proof {
            reveal_strlit("T");
            reveal_strlit("-");
            reveal_strlit(":");
            reveal_strlit("Z");
        }
        let r = four_digit_string(self.year as u64).concat("-").concat(
            two_digit_string(self.month as u64).as_str(),
        ).concat("-").concat(two_digit_string(self.day as u64).as_str()).concat("T").concat(
            two_digit_string(self.hour as u64).as_str(),
        ).concat(":").concat(two_digit_string(self.minute as u64).as_str()).concat(":").concat(
            two_digit_string(self.second as u64).as_str(),
        ).concat("Z");
        assert(r@ =~= self.spec_rfc3339());
        r
    }
}

impl Date {
    /// Field bounds for a meaningful calendar day.
    pub open spec fn wf(self) -> bool {
        &&& self.year <= 9999
        &&& 1 <= self.month <= 12
        &&& 1 <= self.day <= 31
    }
}

} // verus!
