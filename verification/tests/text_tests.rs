//! Decimal rendering: no leading zeros, the zero itself, and both signed
//! extremes.

use reservation_calendar::text::dec_i64_string;
use reservation_calendar::text::dec_u64_string;

#[test]
fn unsigned_decimal_values() {
    assert_eq!(dec_u64_string(0), "0");
    assert_eq!(dec_u64_string(7), "7");
    assert_eq!(dec_u64_string(10), "10");
    assert_eq!(dec_u64_string(98765), "98765");
    assert_eq!(dec_u64_string(u64::MAX), "18446744073709551615");
}

#[test]
fn signed_decimal_values() {
    assert_eq!(dec_i64_string(0), "0");
    assert_eq!(dec_i64_string(1001), "1001");
    assert_eq!(dec_i64_string(-1), "-1");
    assert_eq!(dec_i64_string(i64::MAX), "9223372036854775807");
    assert_eq!(dec_i64_string(i64::MIN), "-9223372036854775808");
}
