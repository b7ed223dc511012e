//! The wall clock, read in Unix microseconds, and the coarser units derived from it.
use vstd::prelude::*;

verus! {

/// The current time in Unix microseconds (`chrono::Utc::now().timestamp_micros()`).
///
/// Nothing is stated of the value: it is the clock's.
#[verifier::external_body]
pub(crate) fn now_micros() -> i64 {
    chrono::Utc::now().timestamp_micros()
}

/// `t` divided by `unit`, rounded towards negative infinity.
pub open spec fn floor_div(t: int, unit: int) -> int {
    t / unit
}

/// `t` in a coarser unit, rounded down (as chrono rounds a time down to whole seconds).
fn floor_units(t: i64, unit: i64) -> (r: i64)
    requires
        unit > 0,
    ensures
        r == floor_div(t as int, unit as int),
{
    if t >= 0 {
        t / unit
    } else {
        let q = (-(t + 1)) / unit;
        assert(q == (-(t + 1)) / (unit as int));
        assert(-q - 1 == (t as int) / (unit as int)) by (nonlinear_arith)
            requires
                q == (-(t + 1)) / (unit as int),
                t < 0,
                unit > 0,
        {
            let a = -(t + 1);
            let r = a % (unit as int);
            assert(a == q * unit + r);
            assert(t == (-q - 1) * unit + (unit - 1 - r));
        }
        -q - 1
    }
}

/// The current time in Unix milliseconds.
pub(crate) fn now_millis() -> (r: i64)
    ensures
        exists|m: i64| r == floor_div(m as int, 1000),
{
    let m = now_micros();
    floor_units(m, 1000)
}

/// The current time in Unix seconds.
pub(crate) fn now_seconds() -> (r: i64)
    ensures
        exists|m: i64| r == floor_div(m as int, 1000000),
{
    let m = now_micros();
    floor_units(m, 1000000)
}

} // verus!
