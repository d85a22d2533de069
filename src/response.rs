//! Field-by-field parsing of gencmd responses.
//!
//! A response is a line of `key=value` fields separated by whitespace, for
//! example `frequency(48)=600000000` or `commands="vcos, version"`. Callers know
//! which fields to expect and take them one at a time with [`parse_field`],
//! which hands back the rest of the text for the next field.
use vstd::prelude::*;

verus! {

// ---------------------------------------------------------------------------
// Characters
// ---------------------------------------------------------------------------

/// Whether `c` has the Unicode White_Space property: tab to carriage return, space, next line,
/// no-break space, ogham space mark, en quad to hair space, line and paragraph separators,
/// narrow no-break space, medium mathematical space and ideographic space.
pub open spec fn white_space(c: char) -> bool {
    let x = c as u32;
    ||| 0x09 <= x <= 0x0D
    ||| x == 0x20
    ||| x == 0x85
    ||| x == 0xA0
    ||| x == 0x1680
    ||| 0x2000 <= x <= 0x200A
    ||| x == 0x2028
    ||| x == 0x2029
    ||| x == 0x202F
    ||| x == 0x205F
    ||| x == 0x3000
}

/// Relies on `char::is_whitespace`: whether a character has the White_Space property of the
/// Unicode Character Database.
pub assume_specification[ char::is_whitespace ](c: char) -> (r: bool)
    ensures
        r == white_space(c),
;

/// The value of `c` as a digit in `radix`: `0-9`, then `a-z` or `A-Z` for 10 to 35,
/// if that is below `radix`.
pub open spec fn digit_value(c: char, radix: u32) -> Option<u32> {
    let x = c as u32;
    let d: u32 = if 48 <= x <= 57 {
        (x - 48) as u32
    } else if 97 <= x <= 122 {
        (x - 87) as u32
    } else if 65 <= x <= 90 {
        (x - 55) as u32
    } else {
        99
    };
    if d < radix {
        Some(d)
    } else {
        None
    }
}

/// The digit value of `c` in `radix`, if it is one.
pub fn char_digit(c: char, radix: u32) -> (r: Option<u32>)
    ensures
        r == digit_value(c, radix),
{
    let x = c as u32;
    let d: u32 = if 48 <= x && x <= 57 {
        x - 48
    } else if 97 <= x && x <= 122 {
        x - 87
    } else if 65 <= x && x <= 90 {
        x - 55
    } else {
        99
    };
    if d < radix {
        Some(d)
    } else {
        None
    }
}

// ---------------------------------------------------------------------------
// Scanning
// ---------------------------------------------------------------------------

/// Index of the first character at or after `i` that is not whitespace.
pub open spec fn skip_white_space(s: Seq<char>, i: int) -> int
    decreases s.len() - i,
{
    if 0 <= i < s.len() && white_space(s[i]) {
        skip_white_space(s, i + 1)
    } else {
        i
    }
}

/// Characters that an integer value may span: signs and digits of `radix`.
pub open spec fn int_char(c: char, radix: u32) -> bool {
    c == '-' || c == '+' || digit_value(c, radix) is Some
}

/// Characters that a decimal value may span: signs, points and decimal digits.
pub open spec fn decimal_char(c: char) -> bool {
    c == '-' || c == '+' || c == '.' || digit_value(c, 10) is Some
}

/// Whether `c` is a sign, `+` or `-`.
pub open spec fn is_sign(c: char) -> bool {
    c == '-' || c == '+'
}

/// Whether an integer in `radix` goes on with character `c` at index `i`: a digit, or a sign
/// in leading position.
pub open spec fn int_continues(c: char, i: int, radix: u32) -> bool {
    digit_value(c, radix) is Some || (i == 0 && is_sign(c))
}

/// Index of the first character at or after `i` that cannot be part of an integer: the integer
/// is an optional leading sign, then digits of `radix`.
pub open spec fn int_span_end(s: Seq<char>, i: int, radix: u32) -> int
    decreases s.len() - i,
{
    if 0 <= i < s.len() && int_continues(s[i], i, radix) {
        int_span_end(s, i + 1, radix)
    } else {
        i
    }
}

/// Whether a decimal goes on with character `c` at index `i`, where `point` says whether a
/// point came before: a digit, a sign in leading position, or a first point.
pub open spec fn decimal_continues(c: char, i: int, point: bool) -> bool {
    digit_value(c, 10) is Some || (i == 0 && is_sign(c)) || (c == '.' && !point)
}

/// Index of the first character at or after `i` that cannot be part of a decimal, where
/// `point` says whether a point came before `i`: the decimal is an optional leading sign, then
/// digits with at most one point among them.
pub open spec fn decimal_span_end(s: Seq<char>, i: int, point: bool) -> int
    decreases s.len() - i,
{
    if 0 <= i < s.len() && decimal_continues(s[i], i, point) {
        decimal_span_end(s, i + 1, point || s[i] == '.')
    } else {
        i
    }
}

/// Index of the first `"` at or after `i`, or the length of `s` if there is none.
pub open spec fn quote_index(s: Seq<char>, i: int) -> int
    decreases s.len() - i,
{
    if 0 <= i < s.len() && s[i] != '"' {
        quote_index(s, i + 1)
    } else {
        i
    }
}

proof fn lemma_skip_white_space_bounds(s: Seq<char>, i: int)
    requires
        0 <= i <= s.len(),
    ensures
        i <= skip_white_space(s, i) <= s.len(),
    decreases s.len() - i,
{
    if i < s.len() && white_space(s[i]) {
        lemma_skip_white_space_bounds(s, i + 1);
    }
}

pub proof fn lemma_int_span_bounds(s: Seq<char>, i: int, radix: u32)
    requires
        0 <= i <= s.len(),
    ensures
        i <= int_span_end(s, i, radix) <= s.len(),
        forall|j: int| i <= j < int_span_end(s, i, radix) ==> int_char(#[trigger] s[j], radix),
    decreases s.len() - i,
{
    if i < s.len() && int_continues(s[i], i, radix) {
        lemma_int_span_bounds(s, i + 1, radix);
    }
}

pub proof fn lemma_decimal_span_bounds(s: Seq<char>, i: int, point: bool)
    requires
        0 <= i <= s.len(),
    ensures
        i <= decimal_span_end(s, i, point) <= s.len(),
    decreases s.len() - i,
{
    if i < s.len() && decimal_continues(s[i], i, point) {
        lemma_decimal_span_bounds(s, i + 1, point || s[i] == '.');
    }
}

/// Whether `s` begins with `p`.
pub open spec fn begins_with(s: Seq<char>, p: Seq<char>) -> bool {
    p.len() <= s.len() && s.take(p.len() as int) == p
}

/// Whether `source` begins with `prefix`, character by character.
pub fn starts_with(source: &str, prefix: &str) -> (r: bool)
    ensures
        r == begins_with(source@, prefix@),
{
    let n = prefix.unicode_len();
    let m = source.unicode_len();
    if n > m {
        return false;
    }
    let mut i: usize = 0;
    while i < n
        invariant
            n == prefix@.len(),
            m == source@.len(),
            n <= m,
            i <= n,
            forall|j: int| 0 <= j < i ==> source@[j] == prefix@[j],
        decreases n - i,
    {
        if source.get_char(i) != prefix.get_char(i) {
            assert(source@.take(n as int)[i as int] != prefix@[i as int]);
            return false;
        }
        i = i + 1;
    }
    assert(source@.take(n as int) =~= prefix@);
    true
}

/// The text of `source` from character `from` to its end.
fn rest_from<'a>(source: &'a str, from: usize) -> (r: &'a str)
    requires
        from <= source@.len(),
    ensures
        r@ == source@.skip(from as int),
{
    let len = source.unicode_len();
    let r = source.substring_char(from, len);
    assert(r@ =~= source@.skip(from as int));
    r
}

// ---------------------------------------------------------------------------
// Integers
// ---------------------------------------------------------------------------

/// Why a text is not an integer of the requested type.
#[derive(Debug, Clone, Copy, PartialEq, Eq, Structural)]
pub enum ParseIntError {
    /// The text is empty.
    Empty,
    /// The text is not a sign followed by one or more digits of the radix.
    InvalidDigit,
    /// The number is above the largest value of the type.
    PosOverflow,
    /// The number is below the smallest value of the type.
    NegOverflow,
}

/// The number that the digits `d` stand for in `radix`, most significant first.
pub open spec fn digits_value(d: Seq<char>, radix: u32) -> int
    decreases d.len(),
{
    if d.len() == 0 {
        0
    } else {
        digits_value(d.drop_last(), radix) * radix + match digit_value(d.last(), radix) {
            Some(x) => x as int,
            None => 0,
        }
    }
}

/// Whether `d` is one or more digits of `radix`.
pub open spec fn all_digits(d: Seq<char>, radix: u32) -> bool {
    d.len() > 0 && forall|j: int| 0 <= j < d.len() ==> (#[trigger] digit_value(d[j], radix)) is Some
}

/// The number written in `t`: an optional sign (`-` only where `signed`), then digits of `radix`.
pub open spec fn int_literal(t: Seq<char>, radix: u32, signed: bool) -> Option<int> {
    if t.len() > 0 && t[0] == '+' {
        if all_digits(t.skip(1), radix) {
            Some(digits_value(t.skip(1), radix))
        } else {
            None
        }
    } else if signed && t.len() > 0 && t[0] == '-' {
        if all_digits(t.skip(1), radix) {
            Some(-digits_value(t.skip(1), radix))
        } else {
            None
        }
    } else if all_digits(t, radix) {
        Some(digits_value(t, radix))
    } else {
        None
    }
}

/// The error that reading `t` as an integer in `min..=max` gives, if any.
pub open spec fn int_error(t: Seq<char>, radix: u32, signed: bool, min: int, max: int) -> Option<
    ParseIntError,
> {
    if t.len() == 0 {
        Some(ParseIntError::Empty)
    } else {
        match int_literal(t, radix, signed) {
            None => Some(ParseIntError::InvalidDigit),
            Some(x) => if x > max {
                Some(ParseIntError::PosOverflow)
            } else if x < min {
                Some(ParseIntError::NegOverflow)
            } else {
                None
            },
        }
    }
}

proof fn lemma_digits_value_nonneg(d: Seq<char>, radix: u32)
    ensures
        digits_value(d, radix) >= 0,
    decreases d.len(),
{
    if d.len() > 0 {
        lemma_digits_value_nonneg(d.drop_last(), radix);
        let a = digits_value(d.drop_last(), radix);
        assert(a * radix >= 0) by (nonlinear_arith)
            requires
                a >= 0,
        ;
    }
}

/// Reads the digits of `t` from `start` on, in `radix`: whether they are one or more digits, and
/// their value, or `None` for the value where it exceeds `u128::MAX`.
fn read_digits(t: &Vec<char>, start: usize, radix: u32) -> (r: (bool, Option<u128>))
    requires
        start <= t@.len(),
    ensures
        r.0 == all_digits(t@.skip(start as int), radix),
        r.0 ==> match r.1 {
            Some(v) => v as int == digits_value(t@.skip(start as int), radix),
            None => digits_value(t@.skip(start as int), radix) > u128::MAX,
        },
{
    let n = t.len();
    if start == n {
        return (false, None);
    }
    let ghost d = t@.skip(start as int);
    let mut acc: Option<u128> = Some(0);
    let mut i: usize = start;
    while i < n
        invariant
            n == t@.len(),
            start <= i <= n,
            d == t@.skip(start as int),
            forall|j: int| 0 <= j < i - start ==> (#[trigger] digit_value(d[j], radix)) is Some,
            match acc {
                Some(v) => v as int == digits_value(d.take(i - start), radix),
                None => digits_value(d.take(i - start), radix) > u128::MAX,
            },
        decreases n - i,
    {
        let c = t[i];
        match char_digit(c, radix) {
            None => {
                assert(!(digit_value(d[i - start], radix) is Some));
                return (false, None);
            },
            Some(x) => {
                let ghost k = i - start;
                assert(d.take(k + 1).drop_last() =~= d.take(k));
                assert(d.take(k + 1).last() == c);
                let ghost prev = digits_value(d.take(k), radix);
                assert(digits_value(d.take(k + 1), radix) == prev * radix + x);
                proof {
                    lemma_digits_value_nonneg(d.take(k), radix);
                }
                acc = match acc {
                    None => {
                        assert(prev * radix + x > u128::MAX) by (nonlinear_arith)
                            requires
                                prev > u128::MAX,
                                radix > x,
                                x >= 0,
                        ;
                        None
                    },
                    Some(v) => {
                        match v.checked_mul(radix as u128) {
                            None => {
                                assert(prev * radix + x > u128::MAX);
                                None
                            },
                            Some(m) => match m.checked_add(x as u128) {
                                None => None,
                                Some(s) => Some(s),
                            },
                        }
                    },
                };
                i = i + 1;
            },
        }
    }
    assert(d.take(n - start) =~= d);
    (true, acc)
}

/// Reads `t` as an integer in `radix` whose magnitude is at most `max_pos` when positive and
/// `max_neg` when negative (`-` is a sign only where `signed`). Returns the sign (`true` for
/// negative) and the magnitude.
fn read_integer(t: &Vec<char>, radix: u32, signed: bool, max_pos: u128, max_neg: u128) -> (r: Result<
    (bool, u128),
    ParseIntError,
>)
    ensures
        r is Ok <==> int_error(t@, radix, signed, -(max_neg as int), max_pos as int) is None,
        match r {
            Ok((neg, m)) => int_literal(t@, radix, signed) == Some(
                if neg {
                    -(m as int)
                } else {
                    m as int
                },
            ),
            Err(e) => int_error(t@, radix, signed, -(max_neg as int), max_pos as int) == Some(e),
        },
{
    let n = t.len();
    if n == 0 {
        return Err(ParseIntError::Empty);
    }
    let first = t[0];
    let (neg, start) = if first == '+' {
        (false, 1usize)
    } else if signed && first == '-' {
        (true, 1usize)
    } else {
        (false, 0usize)
    };
    assert(start == 0 ==> t@.skip(0) =~= t@);
    let (ok, value) = read_digits(t, start, radix);
    if !ok {
        return Err(ParseIntError::InvalidDigit);
    }
    proof {
        lemma_digits_value_nonneg(t@.skip(start as int), radix);
    }
    match value {
        None => if neg {
            Err(ParseIntError::NegOverflow)
        } else {
            Err(ParseIntError::PosOverflow)
        },
        Some(m) => if neg {
            if m > max_neg {
                Err(ParseIntError::NegOverflow)
            } else {
                Ok((true, m))
            }
        } else {
            if m > max_pos {
                Err(ParseIntError::PosOverflow)
            } else {
                Ok((false, m))
            }
        },
    }
}

/// The characters of `s` from `from` up to `to`, as a vector.
fn chars_between(s: &str, from: usize, to: usize) -> (r: Vec<char>)
    requires
        from <= to <= s@.len(),
    ensures
        r@ == s@.subrange(from as int, to as int),
{
    let mut r: Vec<char> = Vec::new();
    let mut i: usize = from;
    while i < to
        invariant
            from <= i <= to <= s@.len(),
            r@ == s@.subrange(from as int, i as int),
        decreases to - i,
    {
        r.push(s.get_char(i));
        i = i + 1;
        assert(r@ =~= s@.subrange(from as int, i as int));
    }
    r
}

/// An integer type that can be read from text in a given radix.
pub trait IntFromStrRadix: Sized {
    /// Whether a leading `-` is read as a sign.
    spec fn signed() -> bool;

    /// The smallest value of the type.
    spec fn min_value() -> int;

    /// The largest value of the type.
    spec fn max_value() -> int;

    /// The value as a mathematical integer.
    spec fn to_int(v: Self) -> int;

    /// Reads the whole of `source` as a number in `radix`.
    fn from_str_radix(source: &str, radix: u32) -> (r: Result<Self, ParseIntError>)
        ensures
            r is Ok <==> int_error(
                source@,
                radix,
                Self::signed(),
                Self::min_value(),
                Self::max_value(),
            ) is None,
            match r {
                Ok(v) => int_literal(source@, radix, Self::signed()) == Some(Self::to_int(v)),
                Err(e) => int_error(
                    source@,
                    radix,
                    Self::signed(),
                    Self::min_value(),
                    Self::max_value(),
                ) == Some(e),
            },
    ;
}


/// All characters of `s`, as a vector.
fn all_chars(s: &str) -> (r: Vec<char>)
    ensures
        r@ == s@,
{
    let r = chars_between(s, 0, s.unicode_len());
    assert(r@ =~= s@);
    r
}

/// The signed number with sign `neg` (`true` for negative) and magnitude `m`.
fn signed_value(neg: bool, m: u128) -> (r: i128)
    requires
        m <= 0x8000_0000_0000_0000u128,
    ensures
        r as int == if neg {
            -(m as int)
        } else {
            m as int
        },
{
    if neg {
        -(m as i128)
    } else {
        m as i128
    }
}

impl IntFromStrRadix for u8 {
    open spec fn signed() -> bool {
        false
    }

    open spec fn min_value() -> int {
        0 as int
    }

    open spec fn max_value() -> int {
        u8::MAX as int
    }

    open spec fn to_int(v: u8) -> int {
        v as int
    }

    fn from_str_radix(source: &str, radix: u32) -> (r: Result<u8, ParseIntError>) {
        let t = all_chars(source);
        match read_integer(&t, radix, false, u8::MAX as u128, 0) {
            Ok((_, m)) => Ok(m as u8),
            Err(e) => Err(e),
        }
    }
}

impl IntFromStrRadix for u16 {
    open spec fn signed() -> bool {
        false
    }

    open spec fn min_value() -> int {
        0 as int
    }

    open spec fn max_value() -> int {
        u16::MAX as int
    }

    open spec fn to_int(v: u16) -> int {
        v as int
    }

    fn from_str_radix(source: &str, radix: u32) -> (r: Result<u16, ParseIntError>) {
        let t = all_chars(source);
        match read_integer(&t, radix, false, u16::MAX as u128, 0) {
            Ok((_, m)) => Ok(m as u16),
            Err(e) => Err(e),
        }
    }
}

impl IntFromStrRadix for u32 {
    open spec fn signed() -> bool {
        false
    }

    open spec fn min_value() -> int {
        0 as int
    }

    open spec fn max_value() -> int {
        u32::MAX as int
    }

    open spec fn to_int(v: u32) -> int {
        v as int
    }

    fn from_str_radix(source: &str, radix: u32) -> (r: Result<u32, ParseIntError>) {
        let t = all_chars(source);
        match read_integer(&t, radix, false, u32::MAX as u128, 0) {
            Ok((_, m)) => Ok(m as u32),
            Err(e) => Err(e),
        }
    }
}

impl IntFromStrRadix for u64 {
    open spec fn signed() -> bool {
        false
    }

    open spec fn min_value() -> int {
        0 as int
    }

    open spec fn max_value() -> int {
        u64::MAX as int
    }

    open spec fn to_int(v: u64) -> int {
        v as int
    }

    fn from_str_radix(source: &str, radix: u32) -> (r: Result<u64, ParseIntError>) {
        let t = all_chars(source);
        match read_integer(&t, radix, false, u64::MAX as u128, 0) {
            Ok((_, m)) => Ok(m as u64),
            Err(e) => Err(e),
        }
    }
}

impl IntFromStrRadix for u128 {
    open spec fn signed() -> bool {
        false
    }

    open spec fn min_value() -> int {
        0 as int
    }

    open spec fn max_value() -> int {
        u128::MAX as int
    }

    open spec fn to_int(v: u128) -> int {
        v as int
    }

    fn from_str_radix(source: &str, radix: u32) -> (r: Result<u128, ParseIntError>) {
        let t = all_chars(source);
        match read_integer(&t, radix, false, u128::MAX as u128, 0) {
            Ok((_, m)) => Ok(m as u128),
            Err(e) => Err(e),
        }
    }
}

impl IntFromStrRadix for i8 {
    open spec fn signed() -> bool {
        true
    }

    open spec fn min_value() -> int {
        i8::MIN as int
    }

    open spec fn max_value() -> int {
        i8::MAX as int
    }

    open spec fn to_int(v: i8) -> int {
        v as int
    }

    fn from_str_radix(source: &str, radix: u32) -> (r: Result<i8, ParseIntError>) {
        let t = all_chars(source);
        match read_integer(&t, radix, true, i8::MAX as u128, 128) {
            Ok((neg, m)) => Ok(signed_value(neg, m) as i8),
            Err(e) => Err(e),
        }
    }
}

impl IntFromStrRadix for i16 {
    open spec fn signed() -> bool {
        true
    }

    open spec fn min_value() -> int {
        i16::MIN as int
    }

    open spec fn max_value() -> int {
        i16::MAX as int
    }

    open spec fn to_int(v: i16) -> int {
        v as int
    }

    fn from_str_radix(source: &str, radix: u32) -> (r: Result<i16, ParseIntError>) {
        let t = all_chars(source);
        match read_integer(&t, radix, true, i16::MAX as u128, 0x8000) {
            Ok((neg, m)) => Ok(signed_value(neg, m) as i16),
            Err(e) => Err(e),
        }
    }
}

impl IntFromStrRadix for i32 {
    open spec fn signed() -> bool {
        true
    }

    open spec fn min_value() -> int {
        i32::MIN as int
    }

    open spec fn max_value() -> int {
        i32::MAX as int
    }

    open spec fn to_int(v: i32) -> int {
        v as int
    }

    fn from_str_radix(source: &str, radix: u32) -> (r: Result<i32, ParseIntError>) {
        let t = all_chars(source);
        match read_integer(&t, radix, true, i32::MAX as u128, 0x8000_0000) {
            Ok((neg, m)) => Ok(signed_value(neg, m) as i32),
            Err(e) => Err(e),
        }
    }
}

impl IntFromStrRadix for i64 {
    open spec fn signed() -> bool {
        true
    }

    open spec fn min_value() -> int {
        i64::MIN as int
    }

    open spec fn max_value() -> int {
        i64::MAX as int
    }

    open spec fn to_int(v: i64) -> int {
        v as int
    }

    fn from_str_radix(source: &str, radix: u32) -> (r: Result<i64, ParseIntError>) {
        let t = all_chars(source);
        match read_integer(&t, radix, true, i64::MAX as u128, 0x8000_0000_0000_0000) {
            Ok((neg, m)) => Ok(signed_value(neg, m) as i64),
            Err(e) => Err(e),
        }
    }
}

impl IntFromStrRadix for i128 {
    open spec fn signed() -> bool {
        true
    }

    open spec fn min_value() -> int {
        i128::MIN as int
    }

    open spec fn max_value() -> int {
        i128::MAX as int
    }

    open spec fn to_int(v: i128) -> int {
        v as int
    }

    fn from_str_radix(source: &str, radix: u32) -> (r: Result<i128, ParseIntError>) {
        let t = all_chars(source);
        match read_integer(&t, radix, true, i128::MAX as u128, 0x8000_0000_0000_0000_0000_0000_0000_0000u128) {
            Ok((neg, m)) => if !neg {
                Ok(m as i128)
            } else if m == 0x8000_0000_0000_0000_0000_0000_0000_0000u128 {
                Ok(i128::MIN)
            } else {
                Ok(-(m as i128))
            },
            Err(e) => Err(e),
        }
    }
}

// ---------------------------------------------------------------------------
// Field values
// ---------------------------------------------------------------------------

/// A value that can be read from the start of a text, leaving the rest for what follows.
pub trait ParseFieldType<'a>: Sized {
    /// Why the start of a text is not such a value.
    type Error;

    /// Whether a value can be read from the start of `s`.
    spec fn accepts(s: Seq<char>) -> bool;

    /// How many characters of `s` the value takes.
    spec fn value_len(s: Seq<char>) -> nat;

    /// Whether `v` is the value read from the start of `s`.
    spec fn reads(s: Seq<char>, v: Self) -> bool;

    /// Whether `e` is the reason for which no value can be read from the start of `s`.
    spec fn rejects(s: Seq<char>, e: Self::Error) -> bool;

    /// Reads a value from the start of `source`; returns the rest of the text and the value.
    fn parse(source: &'a str) -> (r: Result<(&'a str, Self), Self::Error>)
        ensures
            r is Ok <==> Self::accepts(source@),
            match r {
                Ok((rest, v)) => Self::value_len(source@) <= source@.len() && rest@ == source@.skip(
                    Self::value_len(source@) as int,
                ) && Self::reads(source@, v),
                Err(e) => Self::rejects(source@, e),
            },
    ;
}

/// Index of the end of the integer text that starts at `from` in `source`.
fn scan_int(source: &str, from: usize, radix: u32) -> (r: usize)
    requires
        from <= source@.len(),
    ensures
        r == int_span_end(source@, from as int, radix),
{
    let len = source.unicode_len();
    let mut i: usize = from;
    while i < len
        invariant
            from <= i <= len,
            len == source@.len(),
            int_span_end(source@, i as int, radix) == int_span_end(source@, from as int, radix),
        decreases len - i,
    {
        let c = source.get_char(i);
        if !(char_digit(c, radix).is_some() || (i == 0 && (c == '-' || c == '+'))) {
            return i;
        }
        i = i + 1;
    }
    i
}

/// The integer text at the start of `s`, in `radix`.
pub open spec fn int_text(s: Seq<char>, radix: u32) -> Seq<char> {
    s.take(int_span_end(s, 0, radix))
}

/// Reads the integer at the start of `source` in `radix`: the longest run of signs and digits,
/// taken as a whole.
pub fn parse_int<'a, I: IntFromStrRadix>(source: &'a str, radix: u32) -> (r: Result<
    (&'a str, I),
    ParseIntError,
>)
    ensures
        r is Ok <==> int_error(
            int_text(source@, radix),
            radix,
            I::signed(),
            I::min_value(),
            I::max_value(),
        ) is None,
        match r {
            Ok((rest, v)) => rest@ == source@.skip(int_span_end(source@, 0, radix))
                && int_literal(int_text(source@, radix), radix, I::signed()) == Some(I::to_int(v)),
            Err(e) => int_error(
                int_text(source@, radix),
                radix,
                I::signed(),
                I::min_value(),
                I::max_value(),
            ) == Some(e),
        },
{
    let end = scan_int(source, 0, radix);
    proof {
        lemma_int_span_bounds(source@, 0, radix);
    }
    let text = source.substring_char(0, end);
    assert(text@ =~= int_text(source@, radix));
    match I::from_str_radix(text, radix) {
        Ok(v) => Ok((rest_from(source, end), v)),
        Err(e) => Err(e),
    }
}

impl<'a, I: IntFromStrRadix> ParseFieldType<'a> for I {
    type Error = ParseIntError;

    open spec fn accepts(s: Seq<char>) -> bool {
        int_error(int_text(s, 10), 10, I::signed(), I::min_value(), I::max_value()) is None
    }

    open spec fn value_len(s: Seq<char>) -> nat {
        int_span_end(s, 0, 10) as nat
    }

    open spec fn reads(s: Seq<char>, v: I) -> bool {
        int_literal(int_text(s, 10), 10, I::signed()) == Some(I::to_int(v))
    }

    open spec fn rejects(s: Seq<char>, e: ParseIntError) -> bool {
        int_error(int_text(s, 10), 10, I::signed(), I::min_value(), I::max_value()) == Some(e)
    }

    fn parse(source: &'a str) -> (r: Result<(&'a str, I), ParseIntError>) {
        proof {
            lemma_int_span_bounds(source@, 0, 10);
        }
        parse_int(source, 10)
    }
}

/// An integer written in base `RADIX` (without a radix prefix such as `0x`).
pub struct IntRadix<I: IntFromStrRadix, const RADIX: u32>(pub I);

impl<'a, I: IntFromStrRadix, const RADIX: u32> ParseFieldType<'a> for IntRadix<I, RADIX> {
    type Error = ParseIntError;

    open spec fn accepts(s: Seq<char>) -> bool {
        int_error(int_text(s, RADIX), RADIX, I::signed(), I::min_value(), I::max_value()) is None
    }

    open spec fn value_len(s: Seq<char>) -> nat {
        int_span_end(s, 0, RADIX) as nat
    }

    open spec fn reads(s: Seq<char>, v: IntRadix<I, RADIX>) -> bool {
        int_literal(int_text(s, RADIX), RADIX, I::signed()) == Some(I::to_int(v.0))
    }

    open spec fn rejects(s: Seq<char>, e: ParseIntError) -> bool {
        int_error(int_text(s, RADIX), RADIX, I::signed(), I::min_value(), I::max_value()) == Some(
            e,
        )
    }

    fn parse(source: &'a str) -> (r: Result<(&'a str, IntRadix<I, RADIX>), ParseIntError>) {
        proof {
            lemma_int_span_bounds(source@, 0, RADIX);
        }
        match parse_int(source, RADIX) {
            Ok((rest, v)) => Ok((rest, IntRadix(v))),
            Err(e) => Err(e),
        }
    }
}

// ---------------------------------------------------------------------------
// Quoted strings
// ---------------------------------------------------------------------------

/// A string value is not enclosed in a pair of `"`.
#[derive(Debug, Clone, Copy, PartialEq, Eq, Structural)]
pub struct ParseStrError;

/// Whether `s` starts with a quoted string: a `"`, then text up to a closing `"`.
pub open spec fn quoted_at_start(s: Seq<char>) -> bool {
    s.len() > 0 && s[0] == '"' && quote_index(s, 1) < s.len()
}

impl<'a> ParseFieldType<'a> for &'a str {
    type Error = ParseStrError;

    open spec fn accepts(s: Seq<char>) -> bool {
        quoted_at_start(s)
    }

    open spec fn value_len(s: Seq<char>) -> nat {
        (quote_index(s, 1) + 1) as nat
    }

    open spec fn reads(s: Seq<char>, v: &'a str) -> bool {
        v@ == s.subrange(1, quote_index(s, 1))
    }

    open spec fn rejects(s: Seq<char>, e: ParseStrError) -> bool {
        !quoted_at_start(s)
    }

    fn parse(source: &'a str) -> (r: Result<(&'a str, &'a str), ParseStrError>) {
        let len = source.unicode_len();
        if len == 0 {
            return Err(ParseStrError);
        }
        if source.get_char(0) != '"' {
            return Err(ParseStrError);
        }
        assert(source@[0] == '"');
        let mut i: usize = 1;
        while i < len
            invariant
                1 <= i <= len,
                len == source@.len(),
                source@[0] == '"',
                quote_index(source@, i as int) == quote_index(source@, 1),
            decreases len - i,
        {
            if source.get_char(i) == '"' {
                assert(quote_index(source@, i as int) == i);
                assert(quoted_at_start(source@));
                let value = source.substring_char(1, i);
                return Ok((rest_from(source, i + 1), value));
            }
            i = i + 1;
        }
        Err(ParseStrError)
    }
}

// ---------------------------------------------------------------------------
// Decimal numbers
// ---------------------------------------------------------------------------

/// A decimal number holds no digit.
#[derive(Debug, Clone, Copy, PartialEq, Eq, Structural)]
pub struct ParseDecimalError;

/// How many decimal digits occur in `u`.
pub open spec fn count_digits(u: Seq<char>) -> nat
    decreases u.len(),
{
    if u.len() == 0 {
        0
    } else {
        count_digits(u.drop_last()) + if digit_value(u.last(), 10) is Some {
            1nat
        } else {
            0nat
        }
    }
}

/// Whether `t` is a decimal number: an optional leading sign, then digits with at most one
/// point among them (all of `t` is such a run), and at least one digit.
pub open spec fn decimal_number(t: Seq<char>) -> bool {
    decimal_span_end(t, 0, false) == t.len() && count_digits(t) > 0
}

/// The decimal text at the start of `s`.
pub open spec fn decimal_text(s: Seq<char>) -> Seq<char> {
    s.take(decimal_span_end(s, 0, false))
}

/// Whether `t` holds a decimal digit.
fn has_digit(t: &str) -> (r: bool)
    ensures
        r == (count_digits(t@) > 0),
{
    let len = t.unicode_len();
    let mut digits: usize = 0;
    let mut i: usize = 0;
    while i < len
        invariant
            i <= len,
            len == t@.len(),
            digits as nat == count_digits(t@.take(i as int)),
            digits <= i,
        decreases len - i,
    {
        let c = t.get_char(i);
        assert(t@.take(i + 1).drop_last() =~= t@.take(i as int));
        assert(t@.take(i + 1).last() == c);
        if char_digit(c, 10).is_some() {
            digits = digits + 1;
        }
        i = i + 1;
    }
    assert(t@.take(len as int) =~= t@);
    digits > 0
}

/// Index of the end of the decimal text at the start of `source`.
fn scan_decimal(source: &str) -> (r: usize)
    ensures
        r == decimal_span_end(source@, 0, false),
{
    let len = source.unicode_len();
    let mut point = false;
    let mut i: usize = 0;
    while i < len
        invariant
            i <= len,
            len == source@.len(),
            decimal_span_end(source@, i as int, point) == decimal_span_end(source@, 0, false),
        decreases len - i,
    {
        let c = source.get_char(i);
        if !(char_digit(c, 10).is_some() || (i == 0 && (c == '-' || c == '+')) || (c == '.'
            && !point)) {
            return i;
        }
        point = point || c == '.';
        i = i + 1;
    }
    i
}

/// The text of a decimal number read from a field, such as `45.6`, without its unit.
///
/// The number is handed on as text, for the caller to turn into the floating-point
/// type that it needs.
#[derive(Debug, Clone, Copy, PartialEq, Eq)]
pub struct DecimalStr<'a>(pub &'a str);

impl<'a> ParseFieldType<'a> for DecimalStr<'a> {
    type Error = ParseDecimalError;

    open spec fn accepts(s: Seq<char>) -> bool {
        count_digits(decimal_text(s)) > 0
    }

    open spec fn value_len(s: Seq<char>) -> nat {
        decimal_span_end(s, 0, false) as nat
    }

    open spec fn reads(s: Seq<char>, v: DecimalStr<'a>) -> bool {
        v.0@ == decimal_text(s)
    }

    open spec fn rejects(s: Seq<char>, e: ParseDecimalError) -> bool {
        count_digits(decimal_text(s)) == 0
    }

    fn parse(source: &'a str) -> (r: Result<(&'a str, DecimalStr<'a>), ParseDecimalError>) {
        let i = scan_decimal(source);
        proof {
            lemma_decimal_span_bounds(source@, 0, false);
        }
        let text = source.substring_char(0, i);
        assert(text@ =~= decimal_text(source@));
        if !has_digit(text) {
            return Err(ParseDecimalError);
        }
        Ok((rest_from(source, i), DecimalStr(text)))
    }
}

// ---------------------------------------------------------------------------
// Fields
// ---------------------------------------------------------------------------

/// Why a field could not be read.
#[derive(Debug, Clone, Copy, PartialEq, Eq)]
pub enum ParseFieldError<E> {
    /// The text does not hold the expected key, `=`, prefix or suffix.
    InvalidFormatError,
    /// The value itself could not be read.
    ConversionError(E),
}

/// The text of an optional literal; none stands for the empty text.
pub open spec fn opt_text(o: Option<&str>) -> Seq<char> {
    match o {
        Some(p) => p@,
        None => Seq::empty(),
    }
}

/// Where the value of field `key` starts in `s`: after leading whitespace, the key, `=` and
/// `prefix`; none where one of them is missing.
pub open spec fn value_start(s: Seq<char>, key: Seq<char>, prefix: Seq<char>) -> Option<int> {
    let w = skip_white_space(s, 0);
    let t = s.skip(w);
    if begins_with(t, key) && t.len() > key.len() && t[key.len() as int] == '=' && begins_with(
        t.skip(key.len() + 1int),
        prefix,
    ) {
        Some(w + key.len() + 1 + prefix.len())
    } else {
        None
    }
}

/// Whether `r` is what reading field `key` from the start of `source` gives, with the literal
/// `prefix` before the value and the literal `suffix` after it.
pub open spec fn field_parsed<'a, T: ParseFieldType<'a>>(
    source: Seq<char>,
    key: Seq<char>,
    prefix: Seq<char>,
    suffix: Seq<char>,
    r: Result<(&'a str, T), ParseFieldError<T::Error>>,
) -> bool {
    match value_start(source, key, prefix) {
        None => r is Err && r->Err_0 is InvalidFormatError,
        Some(st) => {
            let t = source.skip(st);
            let after = t.skip(T::value_len(t) as int);
            if !T::accepts(t) {
                r is Err && r->Err_0 is ConversionError && T::rejects(t, r->Err_0->ConversionError_0)
            } else if !begins_with(after, suffix) {
                r is Err && r->Err_0 is InvalidFormatError
            } else {
                r is Ok && r->Ok_0.0@ == after.skip(suffix.len() as int) && T::reads(t, r->Ok_0.1)
            }
        },
    }
}

/// Index of the first character of `source` that is not whitespace.
fn scan_white_space(source: &str) -> (r: usize)
    ensures
        r == skip_white_space(source@, 0),
{
    let len = source.unicode_len();
    let mut i: usize = 0;
    while i < len
        invariant
            i <= len,
            len == source@.len(),
            skip_white_space(source@, i as int) == skip_white_space(source@, 0),
        decreases len - i,
    {
        if !source.get_char(i).is_whitespace() {
            return i;
        }
        i = i + 1;
    }
    i
}

/// Skips the literal `p` at the start of `source`, if it is there.
fn skip_literal<'a>(source: &'a str, p: &str) -> (r: Option<&'a str>)
    ensures
        match r {
            Some(rest) => begins_with(source@, p@) && rest@ == source@.skip(p@.len() as int),
            None => !begins_with(source@, p@),
        },
{
    if starts_with(source, p) {
        Some(rest_from(source, p.unicode_len()))
    } else {
        None
    }
}

/// Reads field `key` from the start of `source`: optional whitespace, the key, `=`, the literal
/// `value_prefix` if given, a value of type `T`, and the literal `value_suffix` if given.
/// Returns the text after the field and the value.
pub fn parse_field<'a, T: ParseFieldType<'a>>(
    source: &'a str,
    key: &str,
    value_prefix: Option<&str>,
    value_suffix: Option<&str>,
) -> (r: Result<(&'a str, T), ParseFieldError<T::Error>>)
    ensures
        field_parsed(source@, key@, opt_text(value_prefix), opt_text(value_suffix), r),
{
    let w = scan_white_space(source);
    proof {
        lemma_skip_white_space_bounds(source@, 0);
    }
    let t0 = rest_from(source, w);
    let t1 = match skip_literal(t0, key) {
        Some(t1) => t1,
        None => return Err(ParseFieldError::InvalidFormatError),
    };
    if t1.unicode_len() == 0 {
        return Err(ParseFieldError::InvalidFormatError);
    }
    if t1.get_char(0) != '=' {
        return Err(ParseFieldError::InvalidFormatError);
    }
    assert(t0@[key@.len() as int] == t1@[0]);
    let t2 = rest_from(t1, 1);
    assert(t2@ =~= t0@.skip(key@.len() + 1int));
    let t3 = match value_prefix {
        Some(p) => match skip_literal(t2, p) {
            Some(t3) => t3,
            None => return Err(ParseFieldError::InvalidFormatError),
        },
        None => {
            assert(t2@.take(0) =~= Seq::<char>::empty());
            t2
        },
    };
    let ghost st = w + key@.len() + 1 + opt_text(value_prefix).len();
    assert(value_start(source@, key@, opt_text(value_prefix)) == Some(st));
    assert(t3@ =~= source@.skip(st));
    match T::parse(t3) {
        Err(e) => Err(ParseFieldError::ConversionError(e)),
        Ok((rest, v)) => match value_suffix {
            Some(sfx) => match skip_literal(rest, sfx) {
                Some(rest2) => Ok((rest2, v)),
                None => Err(ParseFieldError::InvalidFormatError),
            },
            None => {
                assert(rest@.take(0) =~= Seq::<char>::empty());
                assert(rest@.skip(0) =~= rest@);
                Ok((rest, v))
            },
        },
    }
}

/// Reads field `key` from the start of `source`, with no prefix or suffix around the value.
pub fn parse_field_simple<'a, T: ParseFieldType<'a>>(source: &'a str, key: &str) -> (r: Result<
    (&'a str, T),
    ParseFieldError<T::Error>,
>)
    ensures
        match value_start(source@, key@, Seq::empty()) {
            None => r is Err && r->Err_0 is InvalidFormatError,
            Some(st) => {
                let t = source@.skip(st);
                if !T::accepts(t) {
                    r is Err && r->Err_0 is ConversionError && T::rejects(t, r->Err_0->ConversionError_0)
                } else {
                    r is Ok && r->Ok_0.0@ == t.skip(T::value_len(t) as int) && T::reads(t, r->Ok_0.1)
                }
            },
        },
{
    let r = parse_field(source, key, None, None);
    proof {
        if let Some(st) = value_start(source@, key@, Seq::empty()) {
            let t = source@.skip(st);
            let after = t.skip(T::value_len(t) as int);
            assert(after.take(0) =~= Seq::<char>::empty());
            assert(after.skip(0) =~= after);
        }
    }
    r
}

/// The integer value of field `key` at the start of `s`, read in `radix` after the literal
/// `prefix` and within `min..=max`, with the text after it; none where the field does not read.
pub open spec fn int_field(
    s: Seq<char>,
    key: Seq<char>,
    prefix: Seq<char>,
    radix: u32,
    signed: bool,
    min: int,
    max: int,
) -> Option<(int, Seq<char>)> {
    match value_start(s, key, prefix) {
        None => None,
        Some(st) => {
            let t = s.skip(st);
            if int_error(int_text(t, radix), radix, signed, min, max) is None {
                Some(
                    (
                        int_literal(int_text(t, radix), radix, signed)->Some_0,
                        t.skip(int_span_end(t, 0, radix)),
                    ),
                )
            } else {
                None
            }
        },
    }
}

/// The `i32` value of field `key` at the start of `s`, with the text after it.
pub open spec fn i32_field(s: Seq<char>, key: Seq<char>) -> Option<(int, Seq<char>)> {
    int_field(s, key, Seq::empty(), 10, true, i32::MIN as int, i32::MAX as int)
}

/// The decimal text of field `key` at the start of `s`, between the literals `prefix` and
/// `suffix`, with the text after the suffix; none where the field does not read.
pub open spec fn decimal_field(s: Seq<char>, key: Seq<char>, prefix: Seq<char>, suffix: Seq<char>) -> Option<
    (Seq<char>, Seq<char>),
> {
    match value_start(s, key, prefix) {
        None => None,
        Some(st) => {
            let t = s.skip(st);
            let after = t.skip(decimal_span_end(t, 0, false));
            if count_digits(decimal_text(t)) > 0 && begins_with(after, suffix) {
                Some((decimal_text(t), after.skip(suffix.len() as int)))
            } else {
                None
            }
        },
    }
}

/// The quoted string value of field `key` at the start of `s`, with the text after it; none
/// where the field does not read.
pub open spec fn str_field(s: Seq<char>, key: Seq<char>) -> Option<(Seq<char>, Seq<char>)> {
    match value_start(s, key, Seq::empty()) {
        None => None,
        Some(st) => {
            let t = s.skip(st);
            if quoted_at_start(t) {
                Some((t.subrange(1, quote_index(t, 1)), t.skip(quote_index(t, 1) + 1)))
            } else {
                None
            }
        },
    }
}

// ---------------------------------------------------------------------------
// Writing fields back
// ---------------------------------------------------------------------------

/// The decimal digit character for `d`.
pub open spec fn digit_char(d: nat) -> char {
    ((48 + d) as u8) as char
}

/// The decimal digits of `n`, most significant first, without leading zeros.
pub open spec fn render_nat(n: nat) -> Seq<char>
    decreases n,
{
    if n < 10 {
        seq![digit_char(n)]
    } else {
        render_nat(n / 10).push(digit_char(n % 10))
    }
}

/// The decimal text of `v`, with a `-` where it is negative.
pub open spec fn render_int(v: int) -> Seq<char> {
    if v < 0 {
        seq!['-'] + render_nat((-v) as nat)
    } else {
        render_nat(v as nat)
    }
}

/// A field as written: `key`, `=`, `prefix`, then the text of the value.
pub open spec fn render_field(key: Seq<char>, prefix: Seq<char>, value: Seq<char>) -> Seq<char> {
    key + seq!['='] + prefix + value
}

/// Whether every character of `ws` is whitespace.
pub open spec fn all_white_space(ws: Seq<char>) -> bool {
    forall|j: int| 0 <= j < ws.len() ==> white_space(#[trigger] ws[j])
}

proof fn lemma_digit_char(d: nat)
    requires
        d < 10,
    ensures
        digit_value(digit_char(d), 10) == Some(d as u32),
        digit_char(d) != '-' && digit_char(d) != '+' && digit_char(d) != '"',
{
    assert(((48 + d) as u8) as char as u32 == 48 + d);
}

proof fn lemma_render_nat(n: nat)
    ensures
        all_digits(render_nat(n), 10),
        digits_value(render_nat(n), 10) == n,
        render_nat(n)[0] != '-' && render_nat(n)[0] != '+',
    decreases n,
{
    if n < 10 {
        lemma_digit_char(n);
        let r = render_nat(n);
        assert(r.drop_last() =~= Seq::<char>::empty());
        assert(digits_value(r.drop_last(), 10) == 0);
        assert(digits_value(r, 10) == digits_value(r.drop_last(), 10) * 10 + n);
    } else {
        lemma_render_nat(n / 10);
        lemma_digit_char(n % 10);
        let r = render_nat(n);
        assert(r.drop_last() =~= render_nat(n / 10));
        assert(r.last() == digit_char(n % 10));
        assert((n / 10) * 10 + n % 10 == n) by (nonlinear_arith);
        assert(digits_value(r, 10) == digits_value(render_nat(n / 10), 10) * 10 + (n % 10) as int);
        assert forall|j: int| 0 <= j < r.len() implies (#[trigger] digit_value(r[j], 10)) is Some by {
            if j < r.len() - 1 {
                assert(r[j] == render_nat(n / 10)[j]);
            }
        }
        assert(r[0] == render_nat(n / 10)[0]);
    }
}

proof fn lemma_skip_white_space_prefix(ws: Seq<char>, rest: Seq<char>, i: int)
    requires
        all_white_space(ws),
        0 <= i <= ws.len(),
        rest.len() > 0,
        !white_space(rest[0]),
    ensures
        skip_white_space(ws + rest, i) == ws.len(),
    decreases ws.len() - i,
{
    let s = ws + rest;
    if i < ws.len() {
        assert(s[i] == ws[i]);
        lemma_skip_white_space_prefix(ws, rest, i + 1);
    } else {
        assert(s[i] == rest[0]);
    }
}

proof fn lemma_int_span_of_digits(d: Seq<char>, rest: Seq<char>, i: int, radix: u32)
    requires
        forall|j: int| 0 <= j < d.len() ==> int_continues(#[trigger] d[j], j, radix),
        0 <= i <= d.len(),
        d.len() > 0,
        rest.len() == 0 || digit_value(rest[0], radix) is None,
    ensures
        int_span_end(d + rest, i, radix) == d.len(),
    decreases d.len() - i,
{
    let s = d + rest;
    if i < d.len() {
        assert(s[i] == d[i]);
        lemma_int_span_of_digits(d, rest, i + 1, radix);
    } else if rest.len() > 0 {
        assert(s[i] == rest[0]);
    }
}

proof fn lemma_value_start(ws: Seq<char>, key: Seq<char>, prefix: Seq<char>, value: Seq<char>)
    requires
        all_white_space(ws),
        key.len() > 0,
        !white_space(key[0]),
    ensures
        value_start(ws + render_field(key, prefix, value), key, prefix) == Some(
            ws.len() + key.len() + 1int + prefix.len(),
        ),
        (ws + render_field(key, prefix, value)).skip(ws.len() + key.len() + 1int + prefix.len())
            == value,
{
    let f = render_field(key, prefix, value);
    let s = ws + f;
    assert(f[0] == key[0]);
    lemma_skip_white_space_prefix(ws, f, 0);
    assert(s.skip(ws.len() as int) =~= f);
    assert(f.take(key.len() as int) =~= key);
    assert(f[key.len() as int] == '=');
    assert(f.skip(key.len() + 1int).take(prefix.len() as int) =~= prefix);
    assert(s.skip(ws.len() + key.len() + 1int + prefix.len()) =~= value);
}

/// An integer field written as `key=` and a prefix, then the value in decimal, reads back as the
/// same value when it is in the type's range, followed by exactly the text that came after it:
/// whitespace before the field is skipped and the prefix is dropped.
pub proof fn lemma_int_field_round_trip<I: IntFromStrRadix>(
    ws: Seq<char>,
    key: Seq<char>,
    prefix: Seq<char>,
    v: int,
    rest: Seq<char>,
)
    requires
        all_white_space(ws),
        key.len() > 0,
        !white_space(key[0]),
        I::min_value() <= v <= I::max_value(),
        v < 0 ==> I::signed(),
        rest.len() == 0 || digit_value(rest[0], 10) is None,
    ensures
        int_field(
            ws + render_field(key, prefix, render_int(v) + rest),
            key,
            prefix,
            10,
            I::signed(),
            I::min_value(),
            I::max_value(),
        ) == Some((v, rest)),
{
    let d = render_int(v);
    let s = ws + render_field(key, prefix, d + rest);
    let st = ws.len() + key.len() + 1int + prefix.len();
    lemma_value_start(ws, key, prefix, d + rest);
    let t = s.skip(st);
    assert(t == d + rest);
    lemma_render_int(v, I::signed());
    lemma_int_span_of_digits(d, rest, 0, 10);
    assert(int_text(t, 10) =~= d);
    assert(t.skip(d.len() as int) =~= rest);
}

proof fn lemma_render_int(v: int, signed: bool)
    requires
        v < 0 ==> signed,
    ensures
        int_literal(render_int(v), 10, signed) == Some(v),
        render_int(v).len() > 0,
        forall|j: int|
            0 <= j < render_int(v).len() ==> int_continues(#[trigger] render_int(v)[j], j, 10),
{
    let d = render_int(v);
    let m: nat = if v < 0 {
        (-v) as nat
    } else {
        v as nat
    };
    lemma_render_nat(m);
    let digits = render_nat(m);
    assert forall|j: int| 0 <= j < d.len() implies int_continues(#[trigger] d[j], j, 10) by {
        if v < 0 {
            if j > 0 {
                assert(d[j] == digits[j - 1]);
            }
        } else {
            assert(d[j] == digits[j]);
        }
    }
    if v < 0 {
        assert(d.skip(1) =~= digits);
    }
}

/// A quoted string field written as `key="value"` reads back as the same text, followed by
/// exactly the text that came after it, when the value holds no `"`.
pub proof fn lemma_str_field_round_trip(
    ws: Seq<char>,
    key: Seq<char>,
    value: Seq<char>,
    rest: Seq<char>,
)
    requires
        all_white_space(ws),
        key.len() > 0,
        !white_space(key[0]),
        forall|j: int| 0 <= j < value.len() ==> #[trigger] value[j] != '"',
    ensures
        str_field(ws + render_field(key, Seq::empty(), seq!['"'] + value + seq!['"'] + rest), key)
            == Some((value, rest)),
{
    let q = seq!['"'] + value + seq!['"'];
    let t = q + rest;
    lemma_value_start(ws, key, Seq::empty(), t);
    assert(quote_index(t, value.len() + 1int) == value.len() + 1);
    assert forall|i: int| 1 <= i <= value.len() + 1 implies quote_index(t, i) == value.len() + 1 by {
        lemma_quote_index_from(t, i, value.len() + 1int);
    }
    assert(t.subrange(1, value.len() + 1int) =~= value);
    assert(t.skip(value.len() + 2int) =~= rest);
}

proof fn lemma_quote_index_from(t: Seq<char>, i: int, k: int)
    requires
        1 <= i <= k < t.len(),
        t[k] == '"',
        forall|j: int| 1 <= j < k ==> #[trigger] t[j] != '"',
    ensures
        quote_index(t, i) == k,
    decreases k - i,
{
    if i < k {
        lemma_quote_index_from(t, i + 1, k);
    }
}

proof fn lemma_decimal_span_of(d: Seq<char>, tail: Seq<char>, i: int, point: bool)
    requires
        0 <= i <= d.len(),
        decimal_span_end(d, i, point) == d.len(),
        tail.len() == 0 || !decimal_char(tail[0]),
    ensures
        decimal_span_end(d + tail, i, point) == d.len(),
    decreases d.len() - i,
{
    let s = d + tail;
    if i < d.len() {
        assert(s[i] == d[i]);
        lemma_decimal_span_of(d, tail, i + 1, point || d[i] == '.');
    } else if tail.len() > 0 {
        assert(s[i] == tail[0]);
    }
}

/// A decimal field written as `key=`, a prefix, a decimal number and a suffix reads back as the
/// same number text, followed by exactly the text that came after the suffix, where nothing
/// that could continue the number follows it.
pub proof fn lemma_decimal_field_round_trip(
    ws: Seq<char>,
    key: Seq<char>,
    prefix: Seq<char>,
    d: Seq<char>,
    suffix: Seq<char>,
    rest: Seq<char>,
)
    requires
        all_white_space(ws),
        key.len() > 0,
        !white_space(key[0]),
        decimal_number(d),
        (suffix + rest).len() == 0 || !decimal_char((suffix + rest)[0]),
    ensures
        decimal_field(ws + render_field(key, prefix, d + (suffix + rest)), key, prefix, suffix)
            == Some((d, rest)),
{
    let tail = suffix + rest;
    lemma_value_start(ws, key, prefix, d + tail);
    lemma_decimal_span_of(d, tail, 0, false);
    let t = d + tail;
    assert(decimal_text(t) =~= d);
    assert(t.skip(d.len() as int) =~= tail);
    assert(tail.take(suffix.len() as int) =~= suffix);
    assert(tail.skip(suffix.len() as int) =~= rest);
}

/// Reading an integer field back from its written form gives the written value and exactly the
/// text after the suffix: whitespace before the field is skipped, and the prefix and suffix are
/// dropped, where the text after the value does not go on with a digit.
pub proof fn lemma_parse_int_field_round_trip<'a, I: IntFromStrRadix>(
    ws: Seq<char>,
    key: Seq<char>,
    prefix: Seq<char>,
    v: int,
    suffix: Seq<char>,
    rest: Seq<char>,
    r: Result<(&'a str, I), ParseFieldError<ParseIntError>>,
)
    requires
        all_white_space(ws),
        key.len() > 0,
        !white_space(key[0]),
        I::min_value() <= v <= I::max_value(),
        v < 0 ==> I::signed(),
        (suffix + rest).len() == 0 || digit_value((suffix + rest)[0], 10) is None,
        field_parsed::<'a, I>(
            ws + render_field(key, prefix, render_int(v) + (suffix + rest)),
            key,
            prefix,
            suffix,
            r,
        ),
    ensures
        r is Ok,
        r->Ok_0.0@ == rest,
        I::to_int(r->Ok_0.1) == v,
{
    let tail = suffix + rest;
    let s = ws + render_field(key, prefix, render_int(v) + tail);
    lemma_int_field_round_trip::<I>(ws, key, prefix, v, tail);
    lemma_value_start(ws, key, prefix, render_int(v) + tail);
    let st = ws.len() + key.len() + 1int + prefix.len();
    let t = s.skip(st);
    lemma_int_span_bounds(t, 0, 10);
    assert(tail.take(suffix.len() as int) =~= suffix);
    assert(tail.skip(suffix.len() as int) =~= rest);
}

/// Reading a quoted string field back from its written form gives the written text and exactly
/// the text after the suffix, where the text holds no `"`.
pub proof fn lemma_parse_str_field_round_trip<'a>(
    ws: Seq<char>,
    key: Seq<char>,
    value: Seq<char>,
    suffix: Seq<char>,
    rest: Seq<char>,
    r: Result<(&'a str, &'a str), ParseFieldError<ParseStrError>>,
)
    requires
        all_white_space(ws),
        key.len() > 0,
        !white_space(key[0]),
        forall|j: int| 0 <= j < value.len() ==> #[trigger] value[j] != '"',
        field_parsed::<'a, &'a str>(
            ws + render_field(key, Seq::empty(), seq!['"'] + value + seq!['"'] + (suffix + rest)),
            key,
            Seq::empty(),
            suffix,
            r,
        ),
    ensures
        r is Ok,
        r->Ok_0.0@ == rest,
        r->Ok_0.1@ == value,
{
    let tail = suffix + rest;
    lemma_str_field_round_trip(ws, key, value, tail);
    lemma_value_start(ws, key, Seq::empty(), seq!['"'] + value + seq!['"'] + tail);
    let t = seq!['"'] + value + seq!['"'] + tail;
    lemma_quote_index_from(t, 1, value.len() + 1int);
    assert(t.skip(value.len() + 2int) =~= tail);
    assert(tail.take(suffix.len() as int) =~= suffix);
    assert(tail.skip(suffix.len() as int) =~= rest);
}

/// Reading a decimal field back from its written form gives the written number text and exactly
/// the text after the suffix, where nothing that could go on with the number follows it.
pub proof fn lemma_parse_decimal_field_round_trip<'a>(
    ws: Seq<char>,
    key: Seq<char>,
    prefix: Seq<char>,
    d: Seq<char>,
    suffix: Seq<char>,
    rest: Seq<char>,
    r: Result<(&'a str, DecimalStr<'a>), ParseFieldError<ParseDecimalError>>,
)
    requires
        all_white_space(ws),
        key.len() > 0,
        !white_space(key[0]),
        decimal_number(d),
        (suffix + rest).len() == 0 || !decimal_char((suffix + rest)[0]),
        field_parsed::<'a, DecimalStr<'a>>(
            ws + render_field(key, prefix, d + (suffix + rest)),
            key,
            prefix,
            suffix,
            r,
        ),
    ensures
        r is Ok,
        r->Ok_0.0@ == rest,
        r->Ok_0.1.0@ == d,
{
    let tail = suffix + rest;
    lemma_decimal_field_round_trip(ws, key, prefix, d, suffix, rest);
    lemma_value_start(ws, key, prefix, d + tail);
    let st = ws.len() + key.len() + 1int + prefix.len();
    lemma_decimal_span_bounds(d + tail, 0, false);
}

} // verus!
