//! Request-level defaults: the timeout a request denotes when its timeout
//! field is absent, or not a plain decimal number.

use vstd::prelude::*;

use crate::numbers::{all_digits, dec_value};

verus! {

/// The timeout, in seconds, applied when a request names no usable one.
pub const DEFAULT_TIMEOUT_SECS: u64 = 25;

/// The view of an optional string field.
pub open spec fn field_view(field: Option<&str>) -> Option<Seq<char>> {
    match field {
        Option::None => Option::None,
        Option::Some(s) => Option::Some(s@),
    }
}

/// The timeout a request's optional timeout field denotes: the field's
/// decimal value when it is present, made of digits and within `u64`; the
/// default of 25 seconds otherwise.
pub open spec fn spec_timeout(field: Option<Seq<char>>) -> int {
    match field {
        Option::None => DEFAULT_TIMEOUT_SECS as int,
        Option::Some(s) => if s.len() > 0 && all_digits(s) && dec_value(s) <= u64::MAX {
            dec_value(s) as int
        } else {
            DEFAULT_TIMEOUT_SECS as int
        },
    }
}

/// Reads a request's timeout field, falling back to the default when the
/// field is absent or unparsable.
pub fn timeout_or_default(field: Option<&str>) -> (r: u64)
    ensures
        r as int == spec_timeout(field_view(field)),
{
    match field {
        Option::None => DEFAULT_TIMEOUT_SECS,
        Option::Some(s) => match crate::numbers::parse_u64_digits(s) {
            Option::Some(v) => v,
            Option::None => DEFAULT_TIMEOUT_SECS,
        },
    }
}

} // verus!
