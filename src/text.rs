//! Characters, decimal numerals and the `<magnitude><unit>` token shared by the parsers.
use vstd::prelude::*;

verus! {

/// A Unicode White_Space character: tab, line feed, vertical tab, form feed,
/// carriage return, space, next line, no-break space, ogham space mark, the
/// spaces U+2000 to U+200A, line and paragraph separators, narrow no-break
/// space, medium mathematical space and ideographic space.
pub open spec fn is_space(c: char) -> bool {
    ('\u{9}' <= c && c <= '\u{d}') || c == ' ' || c == '\u{85}' || c == '\u{a0}' || c
        == '\u{1680}' || ('\u{2000}' <= c && c <= '\u{200a}') || c == '\u{2028}' || c
        == '\u{2029}' || c == '\u{202f}' || c == '\u{205f}' || c == '\u{3000}'
}

/// One of the ASCII digits `0` to `9`.
pub open spec fn is_digit(c: char) -> bool {
    '0' <= c && c <= '9'
}

/// The value of a digit character.
pub open spec fn digit_value(c: char) -> int {
    (c as u32) as int - 48
}

/// The value of a decimal numeral, most significant digit first.
pub open spec fn digits_value(d: Seq<char>) -> int
    decreases d.len(),
{
    if d.len() == 0 {
        0
    } else {
        digits_value(d.drop_last()) * 10 + digit_value(d.last())
    }
}

/// The character of a digit value below ten.
pub open spec fn digit_char(d: int) -> char {
    if d == 0 {
        '0'
    } else if d == 1 {
        '1'
    } else if d == 2 {
        '2'
    } else if d == 3 {
        '3'
    } else if d == 4 {
        '4'
    } else if d == 5 {
        '5'
    } else if d == 6 {
        '6'
    } else if d == 7 {
        '7'
    } else if d == 8 {
        '8'
    } else {
        '9'
    }
}

/// The decimal numeral of `n`, without leading zeros.
pub open spec fn decimal(n: nat) -> Seq<char>
    decreases n,
{
    if n < 10 {
        seq![digit_char(n as int)]
    } else {
        decimal(n / 10) + seq![digit_char((n % 10) as int)]
    }
}

/// The first position at or after `i` that does not hold a space.
pub open spec fn skip_spaces(s: Seq<char>, i: int) -> int
    decreases s.len() - i,
{
    if 0 <= i < s.len() && is_space(s[i]) {
        skip_spaces(s, i + 1)
    } else {
        i
    }
}

/// The first position at or after `i` that does not hold a digit.
pub open spec fn skip_digits(s: Seq<char>, i: int) -> int
    decreases s.len() - i,
{
    if 0 <= i < s.len() && is_digit(s[i]) {
        skip_digits(s, i + 1)
    } else {
        i
    }
}

/// The end of `s[..j]` once its trailing spaces are dropped.
pub open spec fn trim_end(s: Seq<char>, j: int) -> int
    decreases j,
{
    if 0 < j <= s.len() && is_space(s[j - 1]) {
        trim_end(s, j - 1)
    } else {
        j
    }
}

/// The digits and the unit of a token of the shape
/// `<spaces> <digits> <spaces> <unit> <spaces>`, where the digits are not empty
/// and the unit is what lies between the spaces that follow the digits and the
/// trailing spaces. `None` where the token does not start with a digit once its
/// leading spaces are dropped.
pub open spec fn split_token(s: Seq<char>) -> Option<(Seq<char>, Seq<char>)> {
    let a = skip_spaces(s, 0);
    let b = skip_digits(s, a);
    let c = skip_spaces(s, b);
    let e = trim_end(s, s.len() as int);
    if a < b && c <= e {
        Some((s.subrange(a, b), s.subrange(c, e)))
    } else {
        None
    }
}

/// `m` is the value of the numeral `digits`, or `None` where that value does not fit in a `u64`.
pub open spec fn magnitude_agrees(m: Option<u64>, digits: Seq<char>) -> bool {
    match m {
        Some(v) => v == digits_value(digits),
        None => digits_value(digits) > u64::MAX,
    }
}

/// All characters of `d` are digits.
pub open spec fn all_digits(d: Seq<char>) -> bool {
    forall|i: int| 0 <= i < d.len() ==> is_digit(#[trigger] d[i])
}

/// A prefix of a numeral is worth no more than the whole numeral.
pub proof fn lemma_digits_value_prefix(d: Seq<char>, j: int)
    requires
        all_digits(d),
        0 <= j <= d.len(),
    ensures
        0 <= digits_value(d.subrange(0, j)) <= digits_value(d),
    decreases d.len(),
{
    if j == d.len() {
        assert(d.subrange(0, j) =~= d);
        if d.len() > 0 {
            lemma_digits_value_prefix(d.drop_last(), j - 1);
            assert(d.drop_last().subrange(0, j - 1) =~= d.drop_last());
        }
    } else {
        lemma_digits_value_prefix(d.drop_last(), j);
        assert(d.drop_last().subrange(0, j) =~= d.subrange(0, j));
        lemma_digits_value_prefix(d.drop_last(), d.len() - 1);
        assert(d.drop_last().subrange(0, d.len() - 1) =~= d.drop_last());
    }
}

/// `digit_char` gives the digit of each value below ten.
pub proof fn lemma_digit_char(d: int)
    requires
        0 <= d < 10,
    ensures
        is_digit(digit_char(d)),
        digit_value(digit_char(d)) == d,
{
}

/// The numeral of `n` is a non-empty run of digits whose value is `n`.
pub proof fn lemma_decimal(n: nat)
    ensures
        decimal(n).len() >= 1,
        all_digits(decimal(n)),
        digits_value(decimal(n)) == n,
    decreases n,
{
    if n < 10 {
        lemma_digit_char(n as int);
        assert(decimal(n).drop_last() =~= Seq::<char>::empty());
        assert(digits_value(Seq::<char>::empty()) == 0);
        assert(decimal(n).last() == digit_char(n as int));
    } else {
        lemma_decimal(n / 10);
        lemma_digit_char((n % 10) as int);
        assert(decimal(n).drop_last() =~= decimal(n / 10));
        assert(decimal(n).last() == digit_char((n % 10) as int));
        assert((n / 10) * 10 + n % 10 == n);
    }
}

/// Skipping digits from `i` stops at the first non-digit `k`.
pub proof fn lemma_skip_digits(s: Seq<char>, i: int, k: int)
    requires
        0 <= i <= k <= s.len(),
        forall|p: int| i <= p < k ==> is_digit(#[trigger] s[p]),
        k == s.len() || !is_digit(s[k]),
    ensures
        skip_digits(s, i) == k,
    decreases k - i,
{
    if i < k {
        lemma_skip_digits(s, i + 1, k);
    }
}

/// A numeral followed by a unit that starts with neither a digit nor a space and
/// does not end with a space splits into exactly that numeral and that unit.
pub proof fn lemma_split_rendered(d: Seq<char>, u: Seq<char>)
    requires
        d.len() >= 1,
        all_digits(d),
        u.len() >= 1,
        !is_digit(u[0]),
        !is_space(u[0]),
        !is_space(u.last()),
    ensures
        split_token(d + u) == Some((d, u)),
{
    let s = d + u;
    assert(s[0] == d[0]);
    assert(is_digit(d[0]));
    assert(skip_spaces(s, 0) == 0);
    assert forall|p: int| 0 <= p < d.len() implies is_digit(#[trigger] s[p]) by {
        assert(s[p] == d[p]);
    }
    assert(s[d.len() as int] == u[0]);
    lemma_skip_digits(s, 0, d.len() as int);
    assert(skip_spaces(s, d.len() as int) == d.len());
    assert(s[s.len() - 1] == u.last());
    assert(trim_end(s, s.len() as int) == s.len());
    assert(s.subrange(0, d.len() as int) =~= d);
    assert(s.subrange(d.len() as int, s.len() as int) =~= u);
}

/// Position of the first non-space at or after `i`.
fn skip_spaces_at(s: &str, n: usize, i: usize) -> (r: usize)
    requires
        n == s@.len(),
        i <= n,
    ensures
        r == skip_spaces(s@, i as int),
        i <= r <= n,
{
    let mut j: usize = i;
    while j < n && is_space_char(s.get_char(j))
        invariant
            n == s@.len(),
            i <= j <= n,
            skip_spaces(s@, j as int) == skip_spaces(s@, i as int),
        decreases n - j,
    {
        j = j + 1;
    }
    j
}

/// Position of the first non-digit at or after `i`.
fn skip_digits_at(s: &str, n: usize, i: usize) -> (r: usize)
    requires
        n == s@.len(),
        i <= n,
    ensures
        r == skip_digits(s@, i as int),
        i <= r <= n,
        forall|p: int| i <= p < r ==> is_digit(#[trigger] s@[p]),
{
    let mut j: usize = i;
    while j < n && is_digit_char(s.get_char(j))
        invariant
            n == s@.len(),
            i <= j <= n,
            skip_digits(s@, j as int) == skip_digits(s@, i as int),
            forall|p: int| i <= p < j ==> is_digit(#[trigger] s@[p]),
        decreases n - j,
    {
        j = j + 1;
    }
    j
}

/// End of `s[..n]` without its trailing spaces.
fn trim_end_at(s: &str, n: usize) -> (r: usize)
    requires
        n == s@.len(),
    ensures
        r == trim_end(s@, n as int),
        r <= n,
{
    let mut j: usize = n;
    while j > 0 && is_space_char(s.get_char(j - 1))
        invariant
            n == s@.len(),
            j <= n,
            trim_end(s@, j as int) == trim_end(s@, n as int),
        decreases j,
    {
        j = j - 1;
    }
    j
}

fn is_space_char(c: char) -> (r: bool)
    ensures
        r == is_space(c),
{
    ('\u{9}' <= c && c <= '\u{d}') || c == ' ' || c == '\u{85}' || c == '\u{a0}' || c
        == '\u{1680}' || ('\u{2000}' <= c && c <= '\u{200a}') || c == '\u{2028}' || c
        == '\u{2029}' || c == '\u{202f}' || c == '\u{205f}' || c == '\u{3000}'
}

fn is_digit_char(c: char) -> (r: bool)
    ensures
        r == is_digit(c),
{
    '0' <= c && c <= '9'
}

/// The value of the numeral `s[a..b]`, or `None` where it does not fit in a `u64`.
fn numeral_value(s: &str, a: usize, b: usize) -> (r: Option<u64>)
    requires
        a <= b <= s@.len(),
        forall|p: int| a <= p < b ==> is_digit(#[trigger] s@[p]),
    ensures
        magnitude_agrees(r, s@.subrange(a as int, b as int)),
{
    let ghost d = s@.subrange(a as int, b as int);
    assert(all_digits(d));
    let mut acc: u64 = 0;
    let mut j: usize = a;
    while j < b
        invariant
            a <= j <= b <= s@.len(),
            d == s@.subrange(a as int, b as int),
            all_digits(d),
            acc == digits_value(d.subrange(0, j - a)),
        decreases b - j,
    {
        let c = s.get_char(j);
        let ghost next = d.subrange(0, j - a + 1);
        assert(next.drop_last() =~= d.subrange(0, j - a));
        assert(next.last() == c);
        let digit = (c as u32 - 48) as u64;
        match acc.checked_mul(10) {
            Some(t) => match t.checked_add(digit) {
                Some(v) => {
                    acc = v;
                },
                None => {
                    proof {
                        lemma_digits_value_prefix(d, j - a + 1);
                    }
                    return None;
                },
            },
            None => {
                proof {
                    lemma_digits_value_prefix(d, j - a + 1);
                    lemma_digits_value_prefix(d, j - a);
                }
                return None;
            },
        }
        j = j + 1;
    }
    assert(d.subrange(0, b - a) =~= d);
    Some(acc)
}

/// Splits `s` as `split_token` does: the value of its digits (`None` where it
/// exceeds `u64::MAX`) and its unit.
pub fn scan_token(s: &str) -> (r: Option<(Option<u64>, Vec<char>)>)
    ensures
        match (r, split_token(s@)) {
            (None, None) => true,
            (Some((m, u)), Some((digits, unit))) => u@ == unit && magnitude_agrees(m, digits),
            _ => false,
        },
{
    let n = s.unicode_len();
    let a = skip_spaces_at(s, n, 0);
    let b = skip_digits_at(s, n, a);
    let c = skip_spaces_at(s, n, b);
    let e = trim_end_at(s, n);
    if a < b && c <= e {
        let m = numeral_value(s, a, b);
        let mut unit: Vec<char> = Vec::new();
        let mut j: usize = c;
        while j < e
            invariant
                c <= j <= e <= n,
                n == s@.len(),
                unit@ == s@.subrange(c as int, j as int),
            decreases e - j,
        {
            unit.push(s.get_char(j));
            assert(unit@ =~= s@.subrange(c as int, j + 1));
            j = j + 1;
        }
        Some((m, unit))
    } else {
        None
    }
}

/// The text of a digit value below ten.
fn digit_text(d: u64) -> (r: &'static str)
    requires
        d < 10,
    ensures
        r@ == seq![digit_char(d as int)],
{
    proof {
        reveal_strlit("0");
        reveal_strlit("1");
        reveal_strlit("2");
        reveal_strlit("3");
        reveal_strlit("4");
        reveal_strlit("5");
        reveal_strlit("6");
        reveal_strlit("7");
        reveal_strlit("8");
        reveal_strlit("9");
    }
    let r = if d == 0 {
        "0"
    } else if d == 1 {
        "1"
    } else if d == 2 {
        "2"
    } else if d == 3 {
        "3"
    } else if d == 4 {
        "4"
    } else if d == 5 {
        "5"
    } else if d == 6 {
        "6"
    } else if d == 7 {
        "7"
    } else if d == 8 {
        "8"
    } else {
        "9"
    };
    assert(r@ =~= seq![digit_char(d as int)]);
    r
}

/// Appends the decimal numeral of `n` to `out`.
pub fn push_decimal(out: &mut String, n: u64)
    ensures
        final(out)@ == old(out)@ + decimal(n as nat),
    decreases n,
{
    if n >= 10 {
        push_decimal(out, n / 10);
    }
    out.append(digit_text(n % 10));
    proof {
        if n >= 10 {
            assert(final(out)@ =~= old(out)@ + decimal(n as nat));
        }
    }
}

} // verus!
