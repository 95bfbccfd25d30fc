//! Durations, held as a count of nanoseconds and written as `<n><unit>`.
use vstd::prelude::*;
use crate::error::{scale, scaled, validation_error, ParseErrorKind, ValidationError};
use crate::text::{
    decimal, digits_value, is_digit, is_space, lemma_decimal, lemma_split_rendered,
    push_decimal, scan_token, split_token,
};

verus! {

pub const NANOS_PER_MICRO: u64 = 1_000;

pub const NANOS_PER_MILLI: u64 = 1_000_000;

pub const NANOS_PER_SEC: u64 = 1_000_000_000;

pub const NANOS_PER_MIN: u64 = 60_000_000_000;

pub const NANOS_PER_HOUR: u64 = 3_600_000_000_000;

/// A span of time, as a whole number of nanoseconds.
#[derive(Clone, Copy, Debug, Default, PartialEq, Eq, Structural)]
pub struct DurationConf {
    nanos: u64,
}

impl View for DurationConf {
    type V = u64;

    closed spec fn view(&self) -> u64 {
        self.nanos
    }
}

impl DurationConf {
    /// The duration of `nanos` nanoseconds.
    pub fn new(nanos: u64) -> (r: Self)
        ensures
            r@ == nanos,
    {
        DurationConf { nanos }
    }

    /// The duration in nanoseconds.
    pub fn as_nanos(&self) -> (r: u64)
        ensures
            r == self@,
    {
        self.nanos
    }
}

/// Nanoseconds in one of the units `ns`, `us`, `ms`, `s`, `m`, `h`; `None` for any other text.
pub open spec fn duration_factor(unit: Seq<char>) -> Option<u64> {
    if unit == seq!['n', 's'] {
        Some(1)
    } else if unit == seq!['u', 's'] {
        Some(NANOS_PER_MICRO)
    } else if unit == seq!['m', 's'] {
        Some(NANOS_PER_MILLI)
    } else if unit == seq!['s'] {
        Some(NANOS_PER_SEC)
    } else if unit == seq!['m'] {
        Some(NANOS_PER_MIN)
    } else if unit == seq!['h'] {
        Some(NANOS_PER_HOUR)
    } else {
        None
    }
}

/// The nanoseconds that the text `s` stands for: a decimal magnitude and one
/// unit, with spaces allowed around both; or why it stands for none.
pub open spec fn duration_nanos_of(s: Seq<char>) -> Result<u64, ParseErrorKind> {
    match split_token(s) {
        None => Err(ParseErrorKind::Malformed),
        Some((digits, unit)) => scaled(digits, duration_factor(unit)),
    }
}

/// The text of `n` nanoseconds in the largest unit that divides it, trying
/// `ns`, `us`, `ms`, `s`, `m` in this order and ending with `h`.
pub open spec fn duration_text(n: nat) -> Seq<char> {
    let micros = n / 1000;
    let millis = micros / 1000;
    let secs = millis / 1000;
    if n % 1000 != 0 {
        decimal(n) + seq!['n', 's']
    } else if micros % 1000 != 0 {
        decimal(micros) + seq!['u', 's']
    } else if millis % 1000 != 0 {
        decimal(millis) + seq!['m', 's']
    } else if secs % 60 != 0 {
        decimal(secs) + seq!['s']
    } else if secs % 3600 != 0 {
        decimal(secs / 60) + seq!['m']
    } else {
        decimal(secs / 3600) + seq!['h']
    }
}

fn duration_factor_of(unit: &Vec<char>) -> (r: Option<u64>)
    ensures
        r == duration_factor(unit@),
{
    let n = unit.len();
    if n == 2 && unit[0] == 'n' && unit[1] == 's' {
        assert(unit@ =~= seq!['n', 's']);
        Some(1)
    } else if n == 2 && unit[0] == 'u' && unit[1] == 's' {
        assert(unit@ =~= seq!['u', 's']);
        Some(NANOS_PER_MICRO)
    } else if n == 2 && unit[0] == 'm' && unit[1] == 's' {
        assert(unit@ =~= seq!['m', 's']);
        Some(NANOS_PER_MILLI)
    } else if n == 1 && unit[0] == 's' {
        assert(unit@ =~= seq!['s']);
        Some(NANOS_PER_SEC)
    } else if n == 1 && unit[0] == 'm' {
        assert(unit@ =~= seq!['m']);
        Some(NANOS_PER_MIN)
    } else if n == 1 && unit[0] == 'h' {
        assert(unit@ =~= seq!['h']);
        Some(NANOS_PER_HOUR)
    } else {
        None
    }
}

/// Reads a duration such as `"500ms"` or `" 2 h "`.
pub fn parse_duration(s: &str) -> (r: Result<DurationConf, ValidationError>)
    ensures
        match r {
            Ok(d) => duration_nanos_of(s@) == Ok::<u64, ParseErrorKind>(d@),
            Err(e) => duration_nanos_of(s@) == Err::<u64, ParseErrorKind>(e.kind) && e.input@
                == s@,
        },
{
    match scan_token(s) {
        None => Err(validation_error(s, ParseErrorKind::Malformed)),
        Some((m, unit)) => {
            let ghost digits = match split_token(s@) {
                Some((digits, _)) => digits,
                None => Seq::empty(),
            };
            match scale(m, duration_factor_of(&unit), Ghost(digits)) {
                Ok(nanos) => Ok(DurationConf::new(nanos)),
                Err(kind) => Err(validation_error(s, kind)),
            }
        },
    }
}

/// Writes `duration` in the largest unit that divides it exactly.
pub fn format_duration(duration: DurationConf) -> (r: String)
    ensures
        r@ == duration_text(duration@ as nat),
{
    let n = duration.as_nanos();
    let micros = n / 1000;
    let millis = micros / 1000;
    let secs = millis / 1000;
    let mut out = String::new();
    let unit: &str;
    if n % 1000 != 0 {
        push_decimal(&mut out, n);
        unit = "ns";
        proof { reveal_strlit("ns"); }
    } else if micros % 1000 != 0 {
        push_decimal(&mut out, micros);
        unit = "us";
        proof { reveal_strlit("us"); }
    } else if millis % 1000 != 0 {
        push_decimal(&mut out, millis);
        unit = "ms";
        proof { reveal_strlit("ms"); }
    } else if secs % 60 != 0 {
        push_decimal(&mut out, secs);
        unit = "s";
        proof { reveal_strlit("s"); }
    } else if secs % 3600 != 0 {
        push_decimal(&mut out, secs / 60);
        unit = "m";
        proof { reveal_strlit("m"); }
    } else {
        push_decimal(&mut out, secs / 3600);
        unit = "h";
        proof { reveal_strlit("h"); }
    }
    out.append(unit);
    assert(out@ =~= duration_text(n as nat));
    out
}

/// Writing a duration and reading the text back gives the same duration.
pub proof fn lemma_duration_round_trip(nanos: u64)
    ensures
        duration_nanos_of(duration_text(nanos as nat)) == Ok::<u64, ParseErrorKind>(nanos),
{
    let n = nanos as nat;
    let micros = n / 1000;
    let millis = micros / 1000;
    let secs = millis / 1000;
    let (q, unit, f): (nat, Seq<char>, u64) = if n % 1000 != 0 {
        (n, seq!['n', 's'], 1u64)
    } else if micros % 1000 != 0 {
        (micros, seq!['u', 's'], NANOS_PER_MICRO)
    } else if millis % 1000 != 0 {
        (millis, seq!['m', 's'], NANOS_PER_MILLI)
    } else if secs % 60 != 0 {
        (secs, seq!['s'], NANOS_PER_SEC)
    } else if secs % 3600 != 0 {
        (secs / 60, seq!['m'], NANOS_PER_MIN)
    } else {
        (secs / 3600, seq!['h'], NANOS_PER_HOUR)
    };
    assert(duration_text(n) == decimal(q) + unit);
    assert(q * f == n);
    lemma_decimal(q);
    assert(!is_digit(unit[0]) && !is_space(unit[0]) && !is_space(unit.last()));
    lemma_split_rendered(decimal(q), unit);
    assert(duration_factor(unit) == Some(f));
}

/// Once a token splits into a numeral and a known unit, it stands for the exact
/// product of the two where that fits in a `u64`, and is refused as an overflow
/// where it does not: the product is never wrapped.
pub proof fn lemma_duration_overflow(s: Seq<char>, digits: Seq<char>, unit: Seq<char>)
    requires
        split_token(s) == Some((digits, unit)),
        duration_factor(unit) is Some,
    ensures
        digits_value(digits) * (duration_factor(unit)->0 as int) > u64::MAX ==> duration_nanos_of(
            s,
        ) == Err::<u64, ParseErrorKind>(ParseErrorKind::Overflow),
        digits_value(digits) * (duration_factor(unit)->0 as int) <= u64::MAX ==> duration_nanos_of(
            s,
        ) == Ok::<u64, ParseErrorKind>(
            (digits_value(digits) * (duration_factor(unit)->0 as int)) as u64,
        ),
{
}

} // verus!
