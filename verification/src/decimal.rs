//! Fixed-point decimal numbers with four fractional digits.
//!
//! A coordinate is typed into a five-character field, so it never has more
//! than four digits after the point. A [`Decimal`] stores such a number
//! exactly, as a whole count of ten-thousandths, and two decimals compare as
//! their counts do.
//!
//! The module also fixes the text form of a decimal: [`Decimal::parse`] reads
//! it, [`Decimal::to_text`] writes the shortest form that reads back as the
//! same number, and [`Decimal::to_fixed2`] writes the two-digit form shown in
//! status lines.

use vstd::prelude::*;

verus! {

/// How many units make up the number one.
pub const SCALE: u64 = 10_000;

/// The smallest whole part whose decimal no longer fits in an `i64` count.
const WHOLE_LIMIT: u64 = 922_337_203_685_478;

/// A decimal number, held as a whole count of ten-thousandths.
#[derive(Clone, Copy, Debug, PartialEq, Eq, Structural)]
pub struct Decimal {
    pub units: i64,
}

/// `String::push` appends one character to the end of the string and leaves
/// the characters before it as they were.
pub assume_specification[ String::push ](s: &mut String, ch: char)
    ensures
        final(s)@ == old(s)@.push(ch),
;

// ---------------------------------------------------------------------------
// Digits
// ---------------------------------------------------------------------------

/// A decimal digit.
pub open spec fn is_digit(c: char) -> bool {
    '0' <= c <= '9'
}

/// The number a decimal digit stands for.
pub open spec fn digit_value(c: char) -> nat {
    (c as int - '0' as int) as nat
}

/// The decimal digit that stands for `d`, for `d` below ten.
pub open spec fn digit_char(d: nat) -> char {
    if d == 0 {
        '0'
    } else if d == 1 {
        '1'
    } else if d == 2 {
        '2'
    } else if d == 3 {
        '3'
    } else if d == 4 {
        '4'
    } else if d == 5 {
        '5'
    } else if d == 6 {
        '6'
    } else if d == 7 {
        '7'
    } else if d == 8 {
        '8'
    } else {
        '9'
    }
}

/// The number written by a sequence of decimal digits, most significant first.
pub open spec fn digits_value(s: Seq<char>) -> nat
    decreases s.len(),
{
    if s.len() == 0 {
        0
    } else {
        digits_value(s.drop_last()) * 10 + digit_value(s.last())
    }
}

/// How many characters at the front of `s` are decimal digits.
pub open spec fn digit_run(s: Seq<char>) -> nat
    decreases s.len(),
{
    if s.len() > 0 && is_digit(s[0]) {
        1 + digit_run(s.drop_first())
    } else {
        0
    }
}

/// The value of the digit at position `i` of `s`, or zero past the end.
pub open spec fn digit_at(s: Seq<char>, i: int) -> nat {
    if 0 <= i < s.len() {
        digit_value(s[i])
    } else {
        0
    }
}

// ---------------------------------------------------------------------------
// Reading
// ---------------------------------------------------------------------------

/// The count of ten-thousandths written by the digits after the point: the
/// first four count, missing ones are zero, later ones are dropped.
pub open spec fn fraction_units(frac: Seq<char>) -> nat {
    digit_at(frac, 0) * 1000 + digit_at(frac, 1) * 100 + digit_at(frac, 2) * 10 + digit_at(frac, 3)
}

/// The count written by an unsigned decimal text: digits, then optionally a
/// point and more digits, with at least one digit in all. `None` for any
/// other text.
pub open spec fn parse_magnitude(body: Seq<char>) -> Option<nat> {
    let w = digit_run(body) as int;
    let whole = body.take(w);
    if w == body.len() {
        if w > 0 {
            Some(digits_value(whole) * 10000)
        } else {
            None
        }
    } else if body[w] == '.' {
        let frac = body.skip(w + 1);
        if digit_run(frac) == frac.len() && w + frac.len() > 0 {
            Some(digits_value(whole) * 10000 + fraction_units(frac))
        } else {
            None
        }
    } else {
        None
    }
}

/// The count written by a decimal text with an optional leading `-` or `+`.
pub open spec fn parse_units(s: Seq<char>) -> Option<int> {
    if s.len() > 0 && s[0] == '-' {
        match parse_magnitude(s.skip(1)) {
            Some(m) => Some(-(m as int)),
            None => None,
        }
    } else if s.len() > 0 && s[0] == '+' {
        match parse_magnitude(s.skip(1)) {
            Some(m) => Some(m as int),
            None => None,
        }
    } else {
        match parse_magnitude(s) {
            Some(m) => Some(m as int),
            None => None,
        }
    }
}

/// The decimal a text stands for: its count, where the text is well formed
/// and the count fits in an `i64`.
pub open spec fn parse_decimal(s: Seq<char>) -> Option<Decimal> {
    match parse_units(s) {
        Some(v) => if i64::MIN <= v <= i64::MAX {
            Some(Decimal { units: v as i64 })
        } else {
            None
        },
        None => None,
    }
}

/// A character that can occur in a decimal text.
pub open spec fn is_plain(c: char) -> bool {
    is_digit(c) || c == '.' || c == '-' || c == '+'
}

// ---------------------------------------------------------------------------
// Writing
// ---------------------------------------------------------------------------

/// The absolute value.
pub open spec fn magnitude(units: int) -> nat {
    if units < 0 {
        (-units) as nat
    } else {
        units as nat
    }
}

/// The sign in front of a number: a minus for a negative one, else nothing.
pub open spec fn sign_text(units: int) -> Seq<char> {
    if units < 0 {
        seq!['-']
    } else {
        Seq::empty()
    }
}

/// The digits of `n`, most significant first, without leading zeros.
pub open spec fn nat_digits(n: nat) -> Seq<char>
    decreases n,
{
    if n < 10 {
        seq![digit_char(n)]
    } else {
        nat_digits(n / 10).push(digit_char(n % 10))
    }
}

/// The digits `a b c d` with trailing zeros left off; the first always stays.
pub open spec fn trimmed_digits(a: nat, b: nat, c: nat, d: nat) -> Seq<char> {
    if d != 0 {
        seq![digit_char(a), digit_char(b), digit_char(c), digit_char(d)]
    } else if c != 0 {
        seq![digit_char(a), digit_char(b), digit_char(c)]
    } else if b != 0 {
        seq![digit_char(a), digit_char(b)]
    } else {
        seq![digit_char(a)]
    }
}

/// The digits of a fraction `f` below one, given as a count of
/// ten-thousandths: four digits with trailing zeros left off.
pub open spec fn fraction_digits(f: nat) -> Seq<char> {
    trimmed_digits(f / 10 / 10 / 10, f / 10 / 10 % 10, f / 10 % 10, f % 10)
}

/// The shortest text of a count of ten-thousandths: a `-` for a negative
/// count, the whole part, and the fraction where it is not zero.
pub open spec fn decimal_text(units: int) -> Seq<char> {
    let m = magnitude(units);
    let whole = sign_text(units) + nat_digits(m / 10000);
    if m % 10000 == 0 {
        whole
    } else {
        whole + seq!['.'] + fraction_digits(m % 10000)
    }
}

/// The text of a count of ten-thousandths with exactly two digits after the
/// point. The magnitude is rounded to the nearest hundredth, a tie away from
/// zero, and a negative count keeps its `-` even where it rounds to zero.
pub open spec fn fixed2_text(units: int) -> Seq<char> {
    let h = (magnitude(units) + 50) / 100;
    sign_text(units) + nat_digits(h / 100) + seq!['.', digit_char(h / 10 % 10), digit_char(h % 10)]
}

// ---------------------------------------------------------------------------
// Lemmas on digit sequences
// ---------------------------------------------------------------------------

/// The run of digits at the front ends within the text, holds digits only,
/// and ends before a character that is no digit.
proof fn lemma_digit_run_bounds(s: Seq<char>)
    ensures
        digit_run(s) <= s.len(),
        forall|j: int| 0 <= j < digit_run(s) ==> is_digit(#[trigger] s[j]),
        digit_run(s) < s.len() ==> !is_digit(s[digit_run(s) as int]),
    decreases s.len(),
{
    if s.len() > 0 && is_digit(s[0]) {
        let t = s.drop_first();
        lemma_digit_run_bounds(t);
        assert forall|j: int| 0 <= j < digit_run(s) implies is_digit(#[trigger] s[j]) by {
            if j > 0 {
                assert(s[j] == t[j - 1]);
            }
        }
        if digit_run(s) < s.len() {
            assert(s[digit_run(s) as int] == t[digit_run(t) as int]);
        }
    }
}

/// A front of digits that ends at the end of the text or before a character
/// that is no digit is the run of digits.
proof fn lemma_digit_run_is(s: Seq<char>, k: int)
    requires
        0 <= k <= s.len(),
        forall|j: int| 0 <= j < k ==> is_digit(#[trigger] s[j]),
        k < s.len() ==> !is_digit(s[k]),
    ensures
        digit_run(s) == k,
    decreases k,
{
    if k > 0 {
        let t = s.drop_first();
        assert(is_digit(s[0]));
        assert forall|j: int| 0 <= j < k - 1 implies is_digit(#[trigger] t[j]) by {
            assert(t[j] == s[j + 1]);
        }
        lemma_digit_run_is(t, k - 1);
    }
}

/// The digits of a number are digits and write that number.
proof fn lemma_nat_digits_are_digits(n: nat)
    ensures
        nat_digits(n).len() > 0,
        forall|j: int| 0 <= j < nat_digits(n).len() ==> is_digit(#[trigger] nat_digits(n)[j]),
        digits_value(nat_digits(n)) == n,
    decreases n,
{
    if n < 10 {
        assert(nat_digits(n).drop_last() =~= Seq::<char>::empty());
        assert(digits_value(nat_digits(n).drop_last()) == 0);
    } else {
        lemma_nat_digits_are_digits(n / 10);
        assert(nat_digits(n).drop_last() =~= nat_digits(n / 10));
    }
}

/// A text that stands for a count holds only digits, points and signs.
pub proof fn lemma_parsed_text_is_plain(s: Seq<char>)
    requires
        parse_units(s) is Some,
    ensures
        forall|i: int| 0 <= i < s.len() ==> is_plain(#[trigger] s[i]),
{
    let signed = s.len() > 0 && (s[0] == '-' || s[0] == '+');
    let body = if signed {
        s.skip(1)
    } else {
        s
    };
    let w = digit_run(body) as int;
    lemma_digit_run_bounds(body);
    assert(parse_magnitude(body) is Some);
    assert forall|i: int| 0 <= i < body.len() implies is_plain(#[trigger] body[i]) by {
        if i > w {
            let frac = body.skip(w + 1);
            lemma_digit_run_bounds(frac);
            assert(body[i] == frac[i - w - 1]);
        }
    }
    assert forall|i: int| 0 <= i < s.len() implies is_plain(#[trigger] s[i]) by {
        if signed && i > 0 {
            assert(s[i] == body[i - 1]);
        }
    }
}

proof fn lemma_digit_char(d: nat)
    requires
        d < 10,
    ensures
        is_digit(digit_char(d)),
        digit_value(digit_char(d)) == d,
{
}

proof fn lemma_trimmed_digits(a: nat, b: nat, c: nat, d: nat)
    requires
        a < 10,
        b < 10,
        c < 10,
        d < 10,
    ensures
        trimmed_digits(a, b, c, d).len() > 0,
        forall|j: int|
            0 <= j < trimmed_digits(a, b, c, d).len() ==> is_digit(
                #[trigger] trimmed_digits(a, b, c, d)[j],
            ),
        fraction_units(trimmed_digits(a, b, c, d)) == a * 1000 + b * 100 + c * 10 + d,
{
    lemma_digit_char(a);
    lemma_digit_char(b);
    lemma_digit_char(c);
    lemma_digit_char(d);
    let out = trimmed_digits(a, b, c, d);
    assert(out[0] == digit_char(a));
    if d != 0 {
        assert(out[1] == digit_char(b) && out[2] == digit_char(c) && out[3] == digit_char(d));
    } else if c != 0 {
        assert(out[1] == digit_char(b) && out[2] == digit_char(c));
    } else if b != 0 {
        assert(out[1] == digit_char(b));
    }
}

proof fn lemma_fraction_round_trip(f: nat)
    requires
        0 < f < 10000,
    ensures
        fraction_digits(f).len() > 0,
        forall|j: int| 0 <= j < fraction_digits(f).len() ==> is_digit(#[trigger] fraction_digits(f)[j]),
        fraction_units(fraction_digits(f)) == f,
{
    let tens = f / 10;
    let hundreds = tens / 10;
    let a = hundreds / 10;
    let b = hundreds % 10;
    let c = tens % 10;
    let d = f % 10;
    assert(f == a * 1000 + b * 100 + c * 10 + d && a < 10);
    lemma_trimmed_digits(a, b, c, d);
}

/// Reading the text that [`decimal_text`] writes gives the count back.
pub proof fn lemma_text_round_trip(units: int)
    ensures
        parse_units(decimal_text(units)) == Some(units),
{
    let m = magnitude(units);
    let whole = nat_digits(m / 10000);
    let f = m % 10000;
    lemma_nat_digits_are_digits(m / 10000);
    let body = if f == 0 {
        whole
    } else {
        whole + seq!['.'] + fraction_digits(f)
    };
    let text = decimal_text(units);
    let w = whole.len() as int;
    assert(body[0] == whole[0]);
    assert(is_digit(body[0]));
    if units < 0 {
        assert(text =~= seq!['-'] + body);
        assert(text.skip(1) =~= body);
    } else {
        assert(text =~= body);
    }
    assert forall|j: int| 0 <= j < w implies is_digit(#[trigger] body[j]) by {
        assert(body[j] == whole[j]);
    }
    lemma_digit_run_is(body, w);
    assert(body.take(w) =~= whole);
    if f != 0 {
        lemma_fraction_round_trip(f);
        let frac = body.skip(w + 1);
        assert(frac =~= fraction_digits(f));
        lemma_digit_run_is(frac, frac.len() as int);
        assert(parse_magnitude(body) == Some(m));
    } else {
        assert(parse_magnitude(body) == Some(m));
    }
}

/// An empty text is no number.
pub proof fn lemma_empty_text_is_no_number()
    ensures
        parse_decimal(Seq::<char>::empty()) is None,
{
}

/// Writing a decimal and reading the text again gives the same decimal.
pub proof fn lemma_decimal_round_trip(d: Decimal)
    ensures
        parse_decimal(decimal_text(d.units as int)) == Some(d),
{
    lemma_text_round_trip(d.units as int);
}

// ---------------------------------------------------------------------------
// Executable reading and writing
// ---------------------------------------------------------------------------

fn magnitude_of(units: i64) -> (m: u64)
    ensures
        m == magnitude(units as int),
{
    if units >= 0 {
        units as u64
    } else {
        (-(units + 1)) as u64 + 1
    }
}

fn digit_to_char(d: u64) -> (c: char)
    requires
        d < 10,
    ensures
        c == digit_char(d as nat),
{
    if d == 0 {
        '0'
    } else if d == 1 {
        '1'
    } else if d == 2 {
        '2'
    } else if d == 3 {
        '3'
    } else if d == 4 {
        '4'
    } else if d == 5 {
        '5'
    } else if d == 6 {
        '6'
    } else if d == 7 {
        '7'
    } else if d == 8 {
        '8'
    } else {
        '9'
    }
}

fn push_nat(out: &mut String, n: u64)
    ensures
        final(out)@ == old(out)@ + nat_digits(n as nat),
    decreases n,
{
    if n >= 10 {
        push_nat(out, n / 10);
    }
    out.push(digit_to_char(n % 10));
}

fn push_sign(out: &mut String, units: i64)
    ensures
        final(out)@ == old(out)@ + sign_text(units as int),
{
    if units < 0 {
        out.push('-');
    }
}

/// The value of the digit at position `i`, or `None` where the character
/// there is no digit.
fn digit_of(s: &str, i: usize) -> (d: Option<u64>)
    requires
        s.is_ascii(),
        i < s@.len(),
    ensures
        match d {
            Some(v) => is_digit(s@[i as int]) && v == digit_value(s@[i as int]) && v < 10,
            None => !is_digit(s@[i as int]),
        },
{
    let b = s.get_ascii(i);
    if 48 <= b && b <= 57 {
        Some((b - 48) as u64)
    } else {
        None
    }
}

/// The end of the run of digits that starts at `from`.
fn scan_digits(s: &str, from: usize) -> (to: usize)
    requires
        s.is_ascii(),
        from <= s@.len(),
    ensures
        from <= to <= s@.len(),
        to - from == digit_run(s@.skip(from as int)),
{
    proof {
        vstd::string::is_ascii_spec_bytes(s);
    }
    let n = s.as_bytes().len();
    let ghost rest = s@.skip(from as int);
    let mut i = from;
    while i < n
        invariant
            s.is_ascii(),
            n == s@.len(),
            from <= i <= n,
            rest == s@.skip(from as int),
            forall|j: int| 0 <= j < i - from ==> is_digit(#[trigger] rest[j]),
        ensures
            from <= i <= n,
            forall|j: int| 0 <= j < i - from ==> is_digit(#[trigger] rest[j]),
            i < n ==> !is_digit(rest[i - from]),
        decreases n - i,
    {
        if digit_of(s, i).is_none() {
            break;
        }
        i += 1;
    }
    proof {
        lemma_digit_run_is(rest, i - from);
    }
    i
}

/// The number written by the digits from `from` up to `to`, or `None` where
/// it reaches the limit for a whole part.
fn read_whole(s: &str, from: usize, to: usize) -> (r: Option<u64>)
    requires
        s.is_ascii(),
        from <= to <= s@.len(),
        forall|j: int| from <= j < to ==> is_digit(#[trigger] s@[j]),
    ensures
        match r {
            Some(v) => v == digits_value(s@.subrange(from as int, to as int)) && v < WHOLE_LIMIT,
            None => digits_value(s@.subrange(from as int, to as int)) >= WHOLE_LIMIT,
        },
{
    let mut whole: u64 = 0;
    let mut too_big = false;
    let mut i = from;
    assert(s@.subrange(from as int, from as int) =~= Seq::<char>::empty());
    while i < to
        invariant
            s.is_ascii(),
            from <= i <= to <= s@.len(),
            forall|j: int| from <= j < to ==> is_digit(#[trigger] s@[j]),
            !too_big ==> whole == digits_value(s@.subrange(from as int, i as int)) && whole
                < WHOLE_LIMIT,
            too_big ==> digits_value(s@.subrange(from as int, i as int)) >= WHOLE_LIMIT,
        decreases to - i,
    {
        let d = digit_of(s, i);
        proof {
            assert(s@.subrange(from as int, i + 1).drop_last() =~= s@.subrange(
                from as int,
                i as int,
            ));
        }
        if !too_big {
            whole = whole * 10 + d.unwrap();
            if whole >= WHOLE_LIMIT {
                too_big = true;
            }
        }
        i += 1;
    }
    if too_big {
        None
    } else {
        Some(whole)
    }
}

/// The count written by the fractional digits that start at `from` and run
/// to the end of the text.
fn read_fraction(s: &str, from: usize) -> (f: u64)
    requires
        s.is_ascii(),
        from <= s@.len(),
        forall|j: int| from <= j < s@.len() ==> is_digit(#[trigger] s@[j]),
    ensures
        f == fraction_units(s@.skip(from as int)),
        f < 10000,
{
    proof {
        vstd::string::is_ascii_spec_bytes(s);
    }
    let given = s.as_bytes().len() - from;
    let mut f: u64 = 0;
    if given > 0 {
        f = f + digit_of(s, from).unwrap() * 1000;
    }
    if given > 1 {
        f = f + digit_of(s, from + 1).unwrap() * 100;
    }
    if given > 2 {
        f = f + digit_of(s, from + 2).unwrap() * 10;
    }
    if given > 3 {
        f = f + digit_of(s, from + 3).unwrap();
    }
    f
}

/// The count written by the unsigned text that starts at `from`, where it is
/// well formed and no larger than the magnitude of `i64::MIN`.
fn read_magnitude(s: &str, from: usize) -> (r: Option<u64>)
    requires
        s.is_ascii(),
        from <= s@.len(),
    ensures
        match r {
            Some(m) => parse_magnitude(s@.skip(from as int)) == Some(m as nat) && m
                <= 9_223_372_036_854_775_808,
            None => match parse_magnitude(s@.skip(from as int)) {
                Some(m) => m > 9_223_372_036_854_775_808,
                None => true,
            },
        },
{
    proof {
        vstd::string::is_ascii_spec_bytes(s);
    }
    let n = s.as_bytes().len();
    let ghost body = s@.skip(from as int);
    let to = scan_digits(s, from);
    proof {
        lemma_digit_run_bounds(body);
        assert(body.take(to - from) =~= s@.subrange(from as int, to as int));
        assert forall|j: int| from <= j < to implies is_digit(#[trigger] s@[j]) by {
            assert(s@[j] == body[j - from]);
        }
    }
    let whole = read_whole(s, from, to);
    let mut frac: u64 = 0;
    if to < n {
        assert(body[to - from] == s@[to as int]);
        if s.get_ascii(to) != 46 {
            return None;
        }
        let ghost tail = body.skip(to - from + 1);
        assert(tail =~= s@.skip(to + 1));
        let end = scan_digits(s, to + 1);
        if end < n || (to == from && to + 1 == n) {
            return None;
        }
        proof {
            lemma_digit_run_bounds(tail);
            assert forall|j: int| to + 1 <= j < s@.len() implies is_digit(#[trigger] s@[j]) by {
                assert(s@[j] == tail[j - to - 1]);
            }
        }
        frac = read_fraction(s, to + 1);
    } else if to == from {
        return None;
    }
    match whole {
        Some(w) => {
            let m = w * SCALE + frac;
            if m > 9_223_372_036_854_775_808 {
                None
            } else {
                Some(m)
            }
        },
        None => None,
    }
}

impl Decimal {
    /// The number one.
    pub fn one() -> (d: Decimal)
        ensures
            d.units == 10000,
    {
        Decimal { units: 10000 }
    }

    /// Reads a decimal text: an optional `-` or `+`, digits, and optionally
    /// a point and more digits, with at least one digit in all. Digits after
    /// the fourth fractional one are dropped. `None` for any other text and
    /// for a number too large for the type.
    pub fn parse(s: &str) -> (r: Option<Decimal>)
        ensures
            r == parse_decimal(s@),
    {
        if !s.is_ascii() {
            proof {
                if parse_units(s@) is Some {
                    lemma_parsed_text_is_plain(s@);
                }
            }
            return None;
        }
        proof {
            vstd::string::is_ascii_spec_bytes(s);
        }
        let n = s.as_bytes().len();
        let first = if n > 0 {
            s.get_ascii(0)
        } else {
            0
        };
        if first == 45 {
            assert(s@[0] == '-');
            match read_magnitude(s, 1) {
                Some(m) => if m == 9_223_372_036_854_775_808 {
                    Some(Decimal { units: i64::MIN })
                } else {
                    Some(Decimal { units: -(m as i64) })
                },
                None => None,
            }
        } else if first == 43 {
            assert(s@[0] == '+');
            match read_magnitude(s, 1) {
                Some(m) => if m == 9_223_372_036_854_775_808 {
                    None
                } else {
                    Some(Decimal { units: m as i64 })
                },
                None => None,
            }
        } else {
            assert(s@.skip(0) =~= s@);
            match read_magnitude(s, 0) {
                Some(m) => if m == 9_223_372_036_854_775_808 {
                    None
                } else {
                    Some(Decimal { units: m as i64 })
                },
                None => None,
            }
        }
    }

    /// The shortest text of this number.
    pub fn to_text(&self) -> (text: String)
        ensures
            text@ == decimal_text(self.units as int),
    {
        let m = magnitude_of(self.units);
        let mut out = String::new();
        push_sign(&mut out, self.units);
        push_nat(&mut out, m / SCALE);
        let f = m % SCALE;
        if f != 0 {
            out.push('.');
            let tens = f / 10;
            let hundreds = tens / 10;
            out.push(digit_to_char(hundreds / 10));
            if hundreds % 10 != 0 || tens % 10 != 0 || f % 10 != 0 {
                out.push(digit_to_char(hundreds % 10));
            }
            if tens % 10 != 0 || f % 10 != 0 {
                out.push(digit_to_char(tens % 10));
            }
            if f % 10 != 0 {
                out.push(digit_to_char(f % 10));
            }
        }
        out
    }

    /// The text of this number with two digits after the point.
    pub fn to_fixed2(&self) -> (text: String)
        ensures
            text@ == fixed2_text(self.units as int),
    {
        let h = (magnitude_of(self.units) + 50) / 100;
        let mut out = String::new();
        push_sign(&mut out, self.units);
        push_nat(&mut out, h / 100);
        out.push('.');
        out.push(digit_to_char(h / 10 % 10));
        out.push(digit_to_char(h % 10));
        out
    }
}

} // verus!
