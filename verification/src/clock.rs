//! The wall clock, read through `chrono`.
use vstd::prelude::*;

verus! {

/// The current time as whole seconds since the Unix epoch
/// (`chrono::Utc::now().timestamp()`). The result depends on the machine's
/// clock, so nothing is stated of it.
#[verifier::external_body]
pub(crate) fn now_unix_seconds() -> (t: i64) {
    chrono::Utc::now().timestamp()
}

/// The current time as milliseconds since the Unix epoch
/// (`chrono::Utc::now().timestamp_millis()`). The result depends on the
/// machine's clock, so nothing is stated of it.
#[verifier::external_body]
pub(crate) fn now_unix_millis() -> (t: i64) {
    chrono::Utc::now().timestamp_millis()
}

/// Integer division rounding towards zero, as Rust's `/` on integers does.
pub open spec fn div_toward_zero(x: int, d: int) -> int {
    if x >= 0 {
        x / d
    } else {
        -((-x) / d)
    }
}

/// Whole seconds from `from` to `to` (milliseconds), rounded towards zero,
/// as `chrono::Duration::num_seconds` counts them.
pub open spec fn seconds_between(from: i64, to: i64) -> int {
    div_toward_zero(to - from, 1000)
}

/// Whole seconds from `from` to `to` (milliseconds), rounded towards zero.
pub fn elapsed_seconds(from: i64, to: i64) -> (s: i128)
    ensures
        s == seconds_between(from, to),
{
    let d: i128 = to as i128 - from as i128;
    if d >= 0 {
        d / 1000
    } else {
        -((-d) / 1000)
    }
}

} // verus!
