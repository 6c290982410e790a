//! Small text helpers: identifier comparison and decimal rendering of
//! fixed-point quantities.

use vstd::prelude::*;
use vstd::string::StringExecFns;

verus! {

/// Relies on str's `PartialEq`: two string slices are equal exactly when
/// their character sequences are equal.
#[verifier::external_body]
pub fn str_eq(a: &str, b: &str) -> (r: bool)
    ensures
        r == (a@ == b@),
{
    a == b
}

/// The decimal digit character for `d`.
fn digit_str(d: u64) -> (r: &'static str)
    requires
        d < 10,
{
    match d {
        0 => "0",
        1 => "1",
        2 => "2",
        3 => "3",
        4 => "4",
        5 => "5",
        6 => "6",
        7 => "7",
        8 => "8",
        _ => "9",
    }
}

/// Render a nonnegative integer in decimal.
fn push_decimal_digits(out: &mut String, n: u64)
    decreases n,
{
    if n >= 10 {
        push_decimal_digits(out, n / 10);
    }
    let d: u64 = n % 10;
    out.append(digit_str(d));
}

/// Render a fixed-point quantity held in thousandths with `places`
/// fractional digits (0, 1 or 2), rounding half away from zero.
pub fn format_milli(value: i64, places: u64) -> (r: String)
    requires
        places <= 2,
{
    let mut out = String::new();
    let magnitude: u64 = if value < 0 {
        out.append("-");
        if value == i64::MIN {
            9223372036854775808u64
        } else {
            (-value) as u64
        }
    } else {
        value as u64
    };
    // Round the thousandths to the requested number of places.
    let scale: u64 = if places == 0 {
        1000
    } else if places == 1 {
        100
    } else {
        10
    };
    let rounded: u64 = (magnitude / scale) + (if magnitude % scale >= scale / 2 { 1u64 } else { 0u64 });
    if places == 0 {
        push_decimal_digits(&mut out, rounded);
    } else if places == 1 {
        push_decimal_digits(&mut out, rounded / 10);
        out.append(".");
        push_decimal_digits(&mut out, rounded % 10);
    } else {
        push_decimal_digits(&mut out, rounded / 100);
        out.append(".");
        let frac: u64 = rounded % 100;
        push_decimal_digits(&mut out, frac / 10);
        push_decimal_digits(&mut out, frac % 10);
    }
    out
}

} // verus!
