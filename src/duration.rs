//! Elapsed time as text: `{years}y {days}d {hours}:{minutes}:{seconds}`.

use vstd::prelude::*;
use crate::text::{decimal, push_decimal, push_two_digits, two_digits};

verus! {

/// Quotient and remainder of `a` by `b`.
pub fn div_rem(a: u64, b: u64) -> (r: (u64, u64))
    requires
        b > 0,
    ensures
        r.0 == a / b,
        r.1 == a % b,
{
    (a / b, a % b)
}

/// The text of a duration of `secs` whole seconds: years (of 365 days) and
/// days each appear only when non-zero and are followed by a space; hours
/// appear only when non-zero, unpadded and followed by `:`; minutes and
/// seconds always appear as two digits.
pub open spec fn duration_text(secs: nat) -> Seq<char> {
    let s = secs % 60;
    let mins = secs / 60;
    let m = mins % 60;
    let hrs = mins / 60;
    let h = hrs % 24;
    let days = hrs / 24;
    let d = days % 365;
    let y = days / 365;
    (if y > 0 {
        decimal(y) + seq!['y', ' ']
    } else {
        Seq::empty()
    }) + (if d > 0 {
        decimal(d) + seq!['d', ' ']
    } else {
        Seq::empty()
    }) + (if h > 0 {
        decimal(h) + seq![':']
    } else {
        Seq::empty()
    }) + two_digits(m) + seq![':'] + two_digits(s)
}

/// Formats `secs` whole seconds as `duration_text` describes.
pub fn format_duration(secs: u64) -> (r: String)
    ensures
        r@ == duration_text(secs as nat),
{
    let (mins, secs_part) = div_rem(secs, 60);
    let (hrs, mins_part) = div_rem(mins, 60);
    let (days, hrs_part) = div_rem(hrs, 24);
    let (years, days_part) = div_rem(days, 365);
    proof {
        reveal_strlit("y ");
        reveal_strlit("d ");
        reveal_strlit(":");
    }
    let mut s = String::new();
    if years > 0 {
        push_decimal(&mut s, years);
        s.append("y ");
    }
    if days_part > 0 {
        push_decimal(&mut s, days_part);
        s.append("d ");
    }
    if hrs_part > 0 {
        push_decimal(&mut s, hrs_part);
        s.append(":");
    }
    push_two_digits(&mut s, mins_part);
    s.append(":");
    push_two_digits(&mut s, secs_part);
    s
}

} // verus!
