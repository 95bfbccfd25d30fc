//! Byte sizes, held as a count of bytes, read with decimal or binary units and
//! written in binary units.
use vstd::prelude::*;
use crate::error::{scale, scaled, validation_error, ParseErrorKind, ValidationError};
use crate::text::{decimal, digits_value, push_decimal, scan_token, split_token};

verus! {

pub const KILOBYTE: u64 = 1_000;

pub const MEGABYTE: u64 = 1_000_000;

pub const GIGABYTE: u64 = 1_000_000_000;

pub const TERABYTE: u64 = 1_000_000_000_000;

pub const KIBIBYTE: u64 = 1_024;

pub const MEBIBYTE: u64 = 1_048_576;

pub const GIBIBYTE: u64 = 1_073_741_824;

pub const TEBIBYTE: u64 = 1_099_511_627_776;

/// A size in bytes.
#[derive(Clone, Copy, Debug, Default, PartialEq, Eq, Structural)]
pub struct ByteSizeConf {
    bytes: u64,
}

impl View for ByteSizeConf {
    type V = u64;

    closed spec fn view(&self) -> u64 {
        self.bytes
    }
}

/// `c` lowers to the lower-case ASCII letter `lower`: it is that letter in
/// either case, or the Kelvin sign U+212A, which lowers to `k`.
pub open spec fn same_letter(c: char, lower: char) -> bool {
    c == lower || (c as u32) + 32 == (lower as u32) || (lower == 'k' && c == '\u{212a}')
}

/// `unit` spells `name` once lowered.
pub open spec fn unit_is(unit: Seq<char>, name: Seq<char>) -> bool {
    unit.len() == name.len() && forall|i: int|
        0 <= i < unit.len() ==> same_letter(#[trigger] unit[i], name[i])
}

/// Bytes in one of the units `b`, `kb`, `ki`, `mb`, `mi`, `gb`, `gi`, `tb`, `ti`
/// written in any case; `None` for any other text.
pub open spec fn byte_factor(unit: Seq<char>) -> Option<u64> {
    if unit_is(unit, seq!['b']) {
        Some(1)
    } else if unit_is(unit, seq!['k', 'b']) {
        Some(KILOBYTE)
    } else if unit_is(unit, seq!['k', 'i']) {
        Some(KIBIBYTE)
    } else if unit_is(unit, seq!['m', 'b']) {
        Some(MEGABYTE)
    } else if unit_is(unit, seq!['m', 'i']) {
        Some(MEBIBYTE)
    } else if unit_is(unit, seq!['g', 'b']) {
        Some(GIGABYTE)
    } else if unit_is(unit, seq!['g', 'i']) {
        Some(GIBIBYTE)
    } else if unit_is(unit, seq!['t', 'b']) {
        Some(TERABYTE)
    } else if unit_is(unit, seq!['t', 'i']) {
        Some(TEBIBYTE)
    } else {
        None
    }
}

/// The bytes that the text `s` stands for: a decimal magnitude and one unit,
/// with spaces allowed around both; or why it stands for none.
pub open spec fn byte_count_of(s: Seq<char>) -> Result<u64, ParseErrorKind> {
    match split_token(s) {
        None => Err(ParseErrorKind::Malformed),
        Some((digits, unit)) => scaled(digits, byte_factor(unit)),
    }
}

/// The binary unit that `n` bytes are shown in, as its size in bytes and its suffix.
pub open spec fn shown_unit(n: nat) -> (nat, Seq<char>) {
    if n < KIBIBYTE {
        (1, seq![' ', 'b', 'y', 't', 'e', 's'])
    } else if n < MEBIBYTE {
        (KIBIBYTE as nat, seq![' ', 'K', 'i', 'B'])
    } else if n < GIBIBYTE {
        (MEBIBYTE as nat, seq![' ', 'M', 'i', 'B'])
    } else {
        (GIBIBYTE as nat, seq![' ', 'G', 'i', 'B'])
    }
}

/// The text of `n` bytes: the whole number of the largest binary unit up to
/// GiB that `n` reaches, then the unit.
pub open spec fn byte_size_text(n: nat) -> Seq<char> {
    decimal(n / shown_unit(n).0) + shown_unit(n).1
}

/// Compares a character with a lower-case ASCII letter, ignoring case.
fn same_letter_exec(c: char, lower: char) -> (r: bool)
    ensures
        r == same_letter(c, lower),
{
    c == lower || (c as u32) + 32 == (lower as u32) || (lower == 'k' && c == '\u{212a}')
}

fn unit_is_exec(unit: &Vec<char>, name: &Vec<char>) -> (r: bool)
    ensures
        r == unit_is(unit@, name@),
{
    if unit.len() != name.len() {
        return false;
    }
    let mut i: usize = 0;
    while i < unit.len()
        invariant
            unit.len() == name.len(),
            i <= unit.len(),
            forall|k: int| 0 <= k < i ==> same_letter(#[trigger] unit@[k], name@[k]),
        decreases unit.len() - i,
    {
        if !same_letter_exec(unit[i], name[i]) {
            return false;
        }
        i = i + 1;
    }
    true
}

fn byte_factor_of(unit: &Vec<char>) -> (r: Option<u64>)
    ensures
        r == byte_factor(unit@),
{
    if unit_is_exec(unit, &vec!['b']) {
        Some(1)
    } else if unit_is_exec(unit, &vec!['k', 'b']) {
        Some(KILOBYTE)
    } else if unit_is_exec(unit, &vec!['k', 'i']) {
        Some(KIBIBYTE)
    } else if unit_is_exec(unit, &vec!['m', 'b']) {
        Some(MEGABYTE)
    } else if unit_is_exec(unit, &vec!['m', 'i']) {
        Some(MEBIBYTE)
    } else if unit_is_exec(unit, &vec!['g', 'b']) {
        Some(GIGABYTE)
    } else if unit_is_exec(unit, &vec!['g', 'i']) {
        Some(GIBIBYTE)
    } else if unit_is_exec(unit, &vec!['t', 'b']) {
        Some(TERABYTE)
    } else if unit_is_exec(unit, &vec!['t', 'i']) {
        Some(TEBIBYTE)
    } else {
        None
    }
}

/// Reads a byte size such as `"10mi"` or `" 3 KB "`, as a count of bytes.
pub fn parse_byte_size(s: &str) -> (r: Result<u64, ValidationError>)
    ensures
        match r {
            Ok(n) => byte_count_of(s@) == Ok::<u64, ParseErrorKind>(n),
            Err(e) => byte_count_of(s@) == Err::<u64, ParseErrorKind>(e.kind) && e.input@ == s@,
        },
{
    match scan_token(s) {
        None => Err(validation_error(s, ParseErrorKind::Malformed)),
        Some((m, unit)) => {
            let ghost digits = match split_token(s@) {
                Some((digits, _)) => digits,
                None => Seq::empty(),
            };
            match scale(m, byte_factor_of(&unit), Ghost(digits)) {
                Ok(n) => Ok(n),
                Err(kind) => Err(validation_error(s, kind)),
            }
        },
    }
}

impl ByteSizeConf {
    /// The size of `bytes` bytes.
    pub fn new(bytes: u64) -> (r: Self)
        ensures
            r@ == bytes,
    {
        ByteSizeConf { bytes }
    }

    /// Reads a byte size as `parse_byte_size` does.
    pub fn parse(s: &str) -> (r: Result<Self, ValidationError>)
        ensures
            match r {
                Ok(size) => byte_count_of(s@) == Ok::<u64, ParseErrorKind>(size@),
                Err(e) => byte_count_of(s@) == Err::<u64, ParseErrorKind>(e.kind) && e.input@
                    == s@,
            },
    {
        match parse_byte_size(s) {
            Ok(n) => Ok(ByteSizeConf::new(n)),
            Err(e) => Err(e),
        }
    }

    /// The size in bytes.
    pub fn as_bytes(&self) -> (r: u64)
        ensures
            r == self@,
    {
        self.bytes
    }

    /// Whole kilobytes (1000 bytes), rounded down.
    pub fn as_kilobytes(&self) -> (r: u64)
        ensures
            r == self@ / KILOBYTE,
    {
        self.bytes / KILOBYTE
    }

    /// Whole kibibytes (1024 bytes), rounded down.
    pub fn as_kibibytes(&self) -> (r: u64)
        ensures
            r == self@ / KIBIBYTE,
    {
        self.bytes / KIBIBYTE
    }

    /// Whole megabytes (10^6 bytes), rounded down.
    pub fn as_megabytes(&self) -> (r: u64)
        ensures
            r == self@ / MEGABYTE,
    {
        self.bytes / MEGABYTE
    }

    /// Whole mebibytes (2^20 bytes), rounded down.
    pub fn as_mebibytes(&self) -> (r: u64)
        ensures
            r == self@ / MEBIBYTE,
    {
        self.bytes / MEBIBYTE
    }

    /// Whole gigabytes (10^9 bytes), rounded down.
    pub fn as_gigabytes(&self) -> (r: u64)
        ensures
            r == self@ / GIGABYTE,
    {
        self.bytes / GIGABYTE
    }

    /// Whole gibibytes (2^30 bytes), rounded down.
    pub fn as_gibibytes(&self) -> (r: u64)
        ensures
            r == self@ / GIBIBYTE,
    {
        self.bytes / GIBIBYTE
    }

    /// The size in the largest binary unit up to GiB that it reaches, in whole
    /// units: `"<n> bytes"`, `"<n> KiB"`, `"<n> MiB"` or `"<n> GiB"`.
    pub fn to_string(&self) -> (r: String)
        ensures
            r@ == byte_size_text(self@ as nat),
    {
        let size = self.bytes;
        let mut out = String::new();
        let suffix: &str;
        if size < KIBIBYTE {
            push_decimal(&mut out, size);
            suffix = " bytes";
            proof {
                reveal_strlit(" bytes");
                assert(suffix@ =~= seq![' ', 'b', 'y', 't', 'e', 's']);
            }
        } else if size < MEBIBYTE {
            push_decimal(&mut out, size / KIBIBYTE);
            suffix = " KiB";
            proof {
                reveal_strlit(" KiB");
                assert(suffix@ =~= seq![' ', 'K', 'i', 'B']);
            }
        } else if size < GIBIBYTE {
            push_decimal(&mut out, size / MEBIBYTE);
            suffix = " MiB";
            proof {
                reveal_strlit(" MiB");
                assert(suffix@ =~= seq![' ', 'M', 'i', 'B']);
            }
        } else {
            push_decimal(&mut out, size / GIBIBYTE);
            suffix = " GiB";
            proof {
                reveal_strlit(" GiB");
                assert(suffix@ =~= seq![' ', 'G', 'i', 'B']);
            }
        }
        out.append(suffix);
        assert(out@ =~= byte_size_text(size as nat));
        out
    }
}

/// The text of a size shows the whole number of its unit that the size holds,
/// rounded down and never up: that number of units is at most the size, and one
/// unit more exceeds it.
pub proof fn lemma_byte_size_text_truncates(n: u64)
    ensures
        byte_size_text(n as nat) == decimal(n as nat / shown_unit(n as nat).0) + shown_unit(
            n as nat,
        ).1,
        (n as nat / shown_unit(n as nat).0) * shown_unit(n as nat).0 <= n,
        n < (n as nat / shown_unit(n as nat).0 + 1) * shown_unit(n as nat).0,
{
    let unit = shown_unit(n as nat).0;
    assert(unit >= 1);
    let q = n as nat / unit;
    vstd::arithmetic::div_mod::lemma_fundamental_div_mod(n as int, unit as int);
    assert((q + 1) * unit == q * unit + unit) by (nonlinear_arith);
}

/// Once a token splits into a numeral and a known unit, it stands for the exact
/// product of the two where that fits in a `u64`, and is refused as an overflow
/// where it does not: the product is never wrapped.
pub proof fn lemma_byte_size_overflow(s: Seq<char>, digits: Seq<char>, unit: Seq<char>)
    requires
        split_token(s) == Some((digits, unit)),
        byte_factor(unit) is Some,
    ensures
        digits_value(digits) * (byte_factor(unit)->0 as int) > u64::MAX ==> byte_count_of(s)
            == Err::<u64, ParseErrorKind>(ParseErrorKind::Overflow),
        digits_value(digits) * (byte_factor(unit)->0 as int) <= u64::MAX ==> byte_count_of(s)
            == Ok::<u64, ParseErrorKind>((digits_value(digits) * (byte_factor(unit)->0 as int)) as u64),
{
}

} // verus!
