//! An upper bound, in nanoseconds, on what a human-readable duration such as
//! `1h 30min` or `2.5days` can add up to, found by one pass over its text.
//!
//! The text is read as humantime reads it: a span is a number (digits, with
//! whitespace allowed between them), an optional fraction after a `.`, and a
//! unit word. Each span is bounded by its number, plus one for a fraction,
//! times the largest unit its word can name; spans whose number or unit the
//! parser rejects add nothing, because the parser stops there. The bound
//! saturates at `PANIC_NANOS`.
use vstd::prelude::*;

use crate::text::is_whitespace;

verus! {

broadcast use vstd::string::group_string_axioms;

/// `(u64::MAX + 1)` seconds in nanoseconds: the first total that a
/// `std::time::Duration` cannot hold.
pub const PANIC_NANOS: u128 = 18446744073709551616000000000;

/// `u64::MAX + 1`: numbers from here on do not fit the parser's counter.
pub const NUMBER_CAP: u128 = 18446744073709551616;

/// Nanoseconds in a second, minute, hour, day, week, month (30.44 days) and
/// year (365.25 days), as humantime counts them.
pub const SECOND_NANOS: u128 = 1_000_000_000;
pub const MINUTE_NANOS: u128 = 60_000_000_000;
pub const HOUR_NANOS: u128 = 3_600_000_000_000;
pub const DAY_NANOS: u128 = 86_400_000_000_000;
pub const WEEK_NANOS: u128 = 604_800_000_000_000;
pub const MONTH_NANOS: u128 = 2_630_016_000_000_000;
pub const YEAR_NANOS: u128 = 31_557_600_000_000_000;

/// What the letters of a unit word read so far say about its length.
#[derive(Debug, Clone, Copy, PartialEq, Eq, Structural)]
pub enum UnitClass {
    /// The unit is at most this many nanoseconds (zero: no unit of the parser
    /// starts so).
    Known(u128),
    /// `m` so far: a minute, unless the word goes on as `ms`, `mil...` or `mo...`.
    M,
    /// `mi` so far: a minute, unless the word goes on as `mil...` (`millis`).
    Mi,
}

/// Where the pass stands.
#[derive(Debug, Clone, Copy, PartialEq, Eq, Structural)]
pub enum ScanPhase {
    /// Not inside a span.
    Between,
    /// Reading a span's number, whose value so far is given (capped at `NUMBER_CAP`).
    Number(u128),
    /// Reading a fraction after the number given.
    Fraction(u128),
    /// Reading the unit word after the number given; whether a fraction came
    /// before it; what its letters say so far.
    Unit(u128, bool, UnitClass),
}

/// The pass's state: the bound of the spans closed so far, and the phase.
#[derive(Debug, Clone, Copy, PartialEq, Eq, Structural)]
pub struct ScanState {
    pub acc: u128,
    pub phase: ScanPhase,
}

pub open spec fn is_digit(c: char) -> bool {
    0x30 <= (c as u32) <= 0x39
}

pub open spec fn digit_value(c: char) -> u128 {
    ((c as u32) - 0x30) as u128
}

/// A character the parser takes as part of a unit word: an ASCII letter or `µ`.
pub open spec fn is_unit_letter(c: char) -> bool {
    let u = c as u32;
    (0x61 <= u <= 0x7a) || (0x41 <= u <= 0x5a) || u == 0xb5
}

/// The class of a unit word that starts with `c`. The parser's units are
/// `ns` (`n...`), `us` (`u...`, `µs`), `ms`/`min`/`month` (`m...`), `M`/`months`,
/// seconds (`s...`), hours (`h...`), days (`d...`), weeks (`w...`) and years
/// (`y...`).
pub open spec fn first_letter_class(c: char) -> UnitClass {
    let u = c as u32;
    if u == 0x6e {
        UnitClass::Known(1)
    } else if u == 0x75 || u == 0xb5 {
        UnitClass::Known(1000)
    } else if u == 0x6d {
        UnitClass::M
    } else if u == 0x4d {
        UnitClass::Known(MONTH_NANOS)
    } else if u == 0x73 {
        UnitClass::Known(SECOND_NANOS)
    } else if u == 0x68 {
        UnitClass::Known(HOUR_NANOS)
    } else if u == 0x64 {
        UnitClass::Known(DAY_NANOS)
    } else if u == 0x77 {
        UnitClass::Known(WEEK_NANOS)
    } else if u == 0x79 {
        UnitClass::Known(YEAR_NANOS)
    } else {
        UnitClass::Known(0)
    }
}

/// The class after one more letter `c` of the unit word.
pub open spec fn next_letter_class(k: UnitClass, c: char) -> UnitClass {
    let u = c as u32;
    match k {
        UnitClass::Known(w) => UnitClass::Known(w),
        UnitClass::M => if u == 0x73 {
            UnitClass::Known(1_000_000)
        } else if u == 0x69 {
            UnitClass::Mi
        } else if u == 0x6f {
            UnitClass::Known(MONTH_NANOS)
        } else {
            UnitClass::Known(MINUTE_NANOS)
        },
        UnitClass::Mi => if u == 0x6c {
            UnitClass::Known(1_000_000)
        } else {
            UnitClass::Known(MINUTE_NANOS)
        },
    }
}

/// The most nanoseconds one unit of a word of class `k` can be.
pub open spec fn class_nanos(k: UnitClass) -> u128 {
    match k {
        UnitClass::Known(w) => w,
        UnitClass::M => MINUTE_NANOS,
        UnitClass::Mi => MINUTE_NANOS,
    }
}

/// The bound after closing a span with number `v`, a fraction or not, and a
/// unit word of class `k`.
pub open spec fn close_span(acc: u128, v: u128, frac: bool, k: UnitClass) -> u128 {
    let span = if v >= NUMBER_CAP { 0 } else { (v + if frac { 1int } else { 0int }) * class_nanos(k) };
    if acc + span >= PANIC_NANOS {
        PANIC_NANOS
    } else {
        (acc + span) as u128
    }
}

/// The number after one more digit `c`, capped at `NUMBER_CAP`.
pub open spec fn push_digit(v: u128, c: char) -> u128 {
    if v * 10 + digit_value(c) >= NUMBER_CAP {
        NUMBER_CAP
    } else {
        (v * 10 + digit_value(c)) as u128
    }
}

/// One character of the pass.
pub open spec fn scan_step(st: ScanState, c: char) -> ScanState {
    match st.phase {
        ScanPhase::Between => if is_digit(c) {
            ScanState { acc: st.acc, phase: ScanPhase::Number(digit_value(c)) }
        } else {
            st
        },
        ScanPhase::Number(v) => if is_digit(c) {
            ScanState { acc: st.acc, phase: ScanPhase::Number(push_digit(v, c)) }
        } else if is_whitespace(c) {
            st
        } else if c == '.' {
            ScanState { acc: st.acc, phase: ScanPhase::Fraction(v) }
        } else if is_unit_letter(c) {
            ScanState { acc: st.acc, phase: ScanPhase::Unit(v, false, first_letter_class(c)) }
        } else {
            ScanState { acc: st.acc, phase: ScanPhase::Between }
        },
        ScanPhase::Fraction(v) => if is_digit(c) || is_whitespace(c) {
            st
        } else if is_unit_letter(c) {
            ScanState { acc: st.acc, phase: ScanPhase::Unit(v, true, first_letter_class(c)) }
        } else {
            ScanState { acc: st.acc, phase: ScanPhase::Between }
        },
        ScanPhase::Unit(v, frac, k) => if is_unit_letter(c) {
            ScanState { acc: st.acc, phase: ScanPhase::Unit(v, frac, next_letter_class(k, c)) }
        } else if is_digit(c) {
            ScanState { acc: close_span(st.acc, v, frac, k), phase: ScanPhase::Number(digit_value(c)) }
        } else {
            ScanState { acc: close_span(st.acc, v, frac, k), phase: ScanPhase::Between }
        },
    }
}

/// The state after reading all of `s`.
pub open spec fn scan(s: Seq<char>) -> ScanState
    decreases s.len(),
{
    if s.len() == 0 {
        ScanState { acc: 0, phase: ScanPhase::Between }
    } else {
        scan_step(scan(s.drop_last()), s.last())
    }
}

/// The bound for all of `s`: the spans closed, plus a unit word that ends
/// the text.
pub open spec fn duration_bound(s: Seq<char>) -> u128 {
    let st = scan(s);
    match st.phase {
        ScanPhase::Unit(v, frac, k) => close_span(st.acc, v, frac, k),
        _ => st.acc,
    }
}

/// Whether `s` stays clear of the total that a `Duration` cannot hold.
pub open spec fn bounded_duration(s: Seq<char>) -> bool {
    duration_bound(s) < PANIC_NANOS
}

fn whitespace(c: char) -> (r: bool)
    ensures
        r == is_whitespace(c),
{
    let u = c as u32;
    (0x09 <= u && u <= 0x0d) || u == 0x20 || u == 0x85 || u == 0xa0 || u == 0x1680
        || (0x2000 <= u && u <= 0x200a) || u == 0x2028 || u == 0x2029 || u == 0x202f
        || u == 0x205f || u == 0x3000
}

fn first_letter_class_exec(c: char) -> (k: UnitClass)
    ensures
        k == first_letter_class(c),
{
    let u = c as u32;
    if u == 0x6e {
        UnitClass::Known(1)
    } else if u == 0x75 || u == 0xb5 {
        UnitClass::Known(1000)
    } else if u == 0x6d {
        UnitClass::M
    } else if u == 0x4d {
        UnitClass::Known(MONTH_NANOS)
    } else if u == 0x73 {
        UnitClass::Known(SECOND_NANOS)
    } else if u == 0x68 {
        UnitClass::Known(HOUR_NANOS)
    } else if u == 0x64 {
        UnitClass::Known(DAY_NANOS)
    } else if u == 0x77 {
        UnitClass::Known(WEEK_NANOS)
    } else if u == 0x79 {
        UnitClass::Known(YEAR_NANOS)
    } else {
        UnitClass::Known(0)
    }
}

fn next_letter_class_exec(k: UnitClass, c: char) -> (r: UnitClass)
    ensures
        r == next_letter_class(k, c),
{
    let u = c as u32;
    match k {
        UnitClass::Known(w) => UnitClass::Known(w),
        UnitClass::M => if u == 0x73 {
            UnitClass::Known(1_000_000)
        } else if u == 0x69 {
            UnitClass::Mi
        } else if u == 0x6f {
            UnitClass::Known(MONTH_NANOS)
        } else {
            UnitClass::Known(MINUTE_NANOS)
        },
        UnitClass::Mi => if u == 0x6c {
            UnitClass::Known(1_000_000)
        } else {
            UnitClass::Known(MINUTE_NANOS)
        },
    }
}

fn close_span_exec(acc: u128, v: u128, frac: bool, k: UnitClass) -> (r: u128)
    requires
        acc <= PANIC_NANOS,
        v <= NUMBER_CAP,
        class_nanos(k) <= YEAR_NANOS,
    ensures
        r == close_span(acc, v, frac, k),
        r <= PANIC_NANOS,
{
    let w = match k {
        UnitClass::Known(w) => w,
        UnitClass::M => MINUTE_NANOS,
        UnitClass::Mi => MINUTE_NANOS,
    };
    assert(w <= YEAR_NANOS);
    if v >= NUMBER_CAP {
        return acc;
    }
    let n: u128 = if frac { v + 1 } else { v };
    assert(n * w <= NUMBER_CAP * YEAR_NANOS) by (nonlinear_arith)
        requires
            n <= NUMBER_CAP,
            w <= YEAR_NANOS,
    ;
    let span = n * w;
    if acc + span >= PANIC_NANOS {
        PANIC_NANOS
    } else {
        acc + span
    }
}

/// A well-formed state: the bound and the number stay within their caps.
pub open spec fn state_in_range(st: ScanState) -> bool {
    &&& st.acc <= PANIC_NANOS
    &&& match st.phase {
        ScanPhase::Between => true,
        ScanPhase::Number(v) => v <= NUMBER_CAP,
        ScanPhase::Fraction(v) => v <= NUMBER_CAP,
        ScanPhase::Unit(v, frac, k) => v <= NUMBER_CAP && class_nanos(k) <= YEAR_NANOS,
    }
}

fn scan_step_exec(st: ScanState, c: char) -> (r: ScanState)
    requires
        state_in_range(st),
    ensures
        r == scan_step(st, c),
        state_in_range(r),
{
    let u = c as u32;
    let digit = 0x30 <= u && u <= 0x39;
    let letter = (0x61 <= u && u <= 0x7a) || (0x41 <= u && u <= 0x5a) || u == 0xb5;
    match st.phase {
        ScanPhase::Between => if digit {
            ScanState { acc: st.acc, phase: ScanPhase::Number((u - 0x30) as u128) }
        } else {
            st
        },
        ScanPhase::Number(v) => if digit {
            let d = (u - 0x30) as u128;
            let next = if v >= NUMBER_CAP / 10 + 1 {
                NUMBER_CAP
            } else if v * 10 + d >= NUMBER_CAP {
                NUMBER_CAP
            } else {
                v * 10 + d
            };
            ScanState { acc: st.acc, phase: ScanPhase::Number(next) }
        } else if whitespace(c) {
            st
        } else if c == '.' {
            ScanState { acc: st.acc, phase: ScanPhase::Fraction(v) }
        } else if letter {
            ScanState { acc: st.acc, phase: ScanPhase::Unit(v, false, first_letter_class_exec(c)) }
        } else {
            ScanState { acc: st.acc, phase: ScanPhase::Between }
        },
        ScanPhase::Fraction(v) => if digit || whitespace(c) {
            st
        } else if letter {
            ScanState { acc: st.acc, phase: ScanPhase::Unit(v, true, first_letter_class_exec(c)) }
        } else {
            ScanState { acc: st.acc, phase: ScanPhase::Between }
        },
        ScanPhase::Unit(v, frac, k) => if letter {
            ScanState { acc: st.acc, phase: ScanPhase::Unit(v, frac, next_letter_class_exec(k, c)) }
        } else if digit {
            ScanState { acc: close_span_exec(st.acc, v, frac, k), phase: ScanPhase::Number((u - 0x30) as u128) }
        } else {
            ScanState { acc: close_span_exec(st.acc, v, frac, k), phase: ScanPhase::Between }
        },
    }
}

/// Whether `s` is clear of the total that a `Duration` cannot hold, by the
/// bound described above.
pub fn is_bounded_duration(s: &str) -> (r: bool)
    ensures
        r == bounded_duration(s@),
{
    let mut it = s.chars();
    let mut st = ScanState { acc: 0, phase: ScanPhase::Between };
    let ghost mut i: int = 0;
    assert(s@.take(0) =~= Seq::<char>::empty());
    loop
        invariant
            0 <= i <= s@.len(),
            vstd::std_specs::iter::IteratorSpec::remaining(&it) == s@.skip(i),
            st == scan(s@.take(i)),
            state_in_range(st),
        ensures
            st == scan(s@),
            state_in_range(st),
        decreases s@.len() - i,
    {
        let ghost before = vstd::std_specs::iter::IteratorSpec::remaining(&it);
        match it.next() {
            None => {
                assert(before.len() == 0);
                assert(s@.take(i) =~= s@);
                break;
            },
            Some(c) => {
                assert(c == s@[i]);
                assert(s@.take(i + 1).drop_last() =~= s@.take(i));
                st = scan_step_exec(st, c);
                proof {
                    assert(vstd::std_specs::iter::IteratorSpec::remaining(&it) =~= s@.skip(i + 1));
                    i = i + 1;
                }
            },
        }
    }
    let total = match st.phase {
        ScanPhase::Unit(v, frac, k) => close_span_exec(st.acc, v, frac, k),
        _ => st.acc,
    };
    total < PANIC_NANOS
}

} // verus!
