//! Numbers written as text: whole numbers and times in decimal notation.

use vstd::prelude::*;
use vstd::slice::slice_subrange;
use vstd::string::is_ascii_spec_bytes;
use crate::time::Seconds;

verus! {

/// Whether `c` is one of the ten decimal digits.
pub open spec fn is_digit(c: char) -> bool {
    '0' <= c <= '9'
}

/// The number a decimal digit stands for.
pub open spec fn digit_value(c: char) -> nat
    recommends
        is_digit(c),
{
    (c as int - '0' as int) as nat
}

/// Whether `s` holds decimal digits only.
pub open spec fn all_digits(s: Seq<char>) -> bool {
    forall|i: int| 0 <= i < s.len() ==> is_digit(#[trigger] s[i])
}

/// The number that a run of decimal digits stands for; zero for the empty run.
pub open spec fn decimal(s: Seq<char>) -> nat
    decreases s.len(),
{
    if s.len() == 0 {
        0
    } else {
        decimal(s.drop_last()) * 10 + digit_value(s.last())
    }
}

/// The whole number that a text stands for, if it stands for one that is at
/// most `max`: an optional `+`, then one or more decimal digits and nothing
/// else.
pub open spec fn unsigned_text(s: Seq<char>, max: nat) -> Option<nat> {
    let digits = if s.len() > 0 && s[0] == '+' {
        s.drop_first()
    } else {
        s
    };
    if digits.len() > 0 && all_digits(digits) && decimal(digits) <= max {
        Some(decimal(digits))
    } else {
        None
    }
}

/// Ten to the power of `n`.
pub open spec fn pow10(n: nat) -> nat
    decreases n,
{
    if n == 0 {
        1
    } else {
        10 * pow10((n - 1) as nat)
    }
}

/// Where the decimal point of `body` stands: at its first `.`, or behind the
/// last character where `body` has none.
pub open spec fn point_of(body: Seq<char>) -> int {
    match body.index_of_first('.') {
        Some(at) => at,
        None => body.len() as int,
    }
}

/// What `body` holds before its decimal point.
pub open spec fn whole_part(body: Seq<char>) -> Seq<char> {
    body.take(point_of(body))
}

/// What `body` holds behind its decimal point; nothing where it has no point.
pub open spec fn fraction_part(body: Seq<char>) -> Seq<char> {
    if point_of(body) < body.len() {
        body.skip(point_of(body) + 1)
    } else {
        Seq::empty()
    }
}

/// Whether `body` is a decimal number without sign: digits, then optionally
/// a point and more digits, with at least one digit in all.
pub open spec fn is_decimal_number(body: Seq<char>) -> bool {
    &&& all_digits(whole_part(body))
    &&& all_digits(fraction_part(body))
    &&& whole_part(body).len() + fraction_part(body).len() > 0
}

/// The millionths that the digits behind a decimal point stand for. Digits
/// behind the sixth are not counted.
pub open spec fn fraction_micros(fraction: Seq<char>) -> nat {
    let kept = if fraction.len() <= 6 {
        fraction
    } else {
        fraction.take(6)
    };
    decimal(kept) * pow10((6 - kept.len()) as nat)
}

/// The time that a text stands for, if it stands for one that can be held: an
/// optional sign, then a decimal number of seconds, with or without a point,
/// that lies in the range of `i64` microseconds.
///
/// The time is held in whole microseconds. A text with more than six digits
/// behind the point is taken without the digits behind the sixth, so that the
/// time is rounded towards zero. Of the texts that stand for a
/// floating-point number, those in exponent notation and the words `inf`,
/// `infinity` and `nan` stand for no time here.
pub open spec fn seconds_text(s: Seq<char>) -> Option<Seconds> {
    let negative = s.len() > 0 && s[0] == '-';
    let body = if s.len() > 0 && (s[0] == '+' || s[0] == '-') {
        s.drop_first()
    } else {
        s
    };
    if !is_decimal_number(body) {
        None
    } else {
        let magnitude = decimal(whole_part(body)) * 1_000_000 + fraction_micros(
            fraction_part(body),
        );
        let micros = if negative {
            -magnitude
        } else {
            magnitude as int
        };
        if i64::MIN <= micros <= i64::MAX {
            Some(Seconds { micros: micros as i64 })
        } else {
            None
        }
    }
}

/// A type whose values can be written as text.
pub trait FromText: Sized {
    /// The value that a text stands for, if it stands for one.
    spec fn parsed(text: Seq<char>) -> Option<Self>;

    /// Reads a value from its text.
    fn from_text(text: &str) -> (r: Option<Self>)
        ensures
            r == Self::parsed(text@),
    ;
}

/// The bytes of a text of ASCII characters, one for each character; nothing
/// for a text that holds any other character.
fn ascii_bytes<'a>(text: &'a str) -> (r: Option<&'a [u8]>)
    ensures
        match r {
            Some(bytes) => {
                &&& bytes@.len() == text@.len()
                &&& forall|i: int| 0 <= i < bytes@.len() ==> bytes@[i] == (#[trigger] text@[i]) as u8
                &&& forall|i: int| 0 <= i < text@.len() ==> '\0' <= #[trigger] text@[i] <= '\u{7f}'
            },
            None => exists|i: int|
                0 <= i < text@.len() && !('\0' <= #[trigger] text@[i] <= '\u{7f}'),
        },
{
    if text.is_ascii() {
        let bytes = text.as_bytes();
        proof {
            is_ascii_spec_bytes(text);
            let expected = Seq::new(text@.len(), |i: int| text@.index(i) as u8);
            assert(bytes@ == expected);
            assert(bytes@.len() == text@.len());
            assert forall|i: int| 0 <= i < bytes@.len() implies bytes@[i] == (#[trigger] text@[i]) as u8 by {
                assert(expected[i] == text@.index(i) as u8);
            }
        }
        Some(bytes)
    } else {
        None
    }
}

/// Reads a whole number that is at most `max` from its text.
pub fn parse_unsigned(text: &str, max: u64) -> (r: Option<u64>)
    ensures
        r == match unsigned_text(text@, max as nat) {
            Some(value) => Some(value as u64),
            None => None,
        },
{
    let bytes = match ascii_bytes(text) {
        Some(bytes) => bytes,
        None => {
            proof {
                let at = choose|i: int|
                    0 <= i < text@.len() && !('\0' <= #[trigger] text@[i] <= '\u{7f}');
                if text@[0] == '+' {
                    assert(text@.drop_first()[at - 1] == text@[at]);
                }
            }
            return None;
        },
    };
    let from: usize = if bytes.len() > 0 && bytes[0] == 43 {
        1
    } else {
        0
    };
    proof {
        if from == 1 {
            assert(text@.drop_first() =~= text@.skip(1));
        } else {
            assert(text@ =~= text@.skip(0));
        }
    }
    if from == bytes.len() {
        return None;
    }
    let (end, value) = scan_digits(bytes, Ghost(text@), from, max);
    if end < bytes.len() {
        assert(text@.skip(from as int)[end - from] == text@[end as int]);
        return None;
    }
    assert(text@.skip(from as int) =~= text@.subrange(from as int, end as int));
    value
}

impl FromText for u64 {
    open spec fn parsed(text: Seq<char>) -> Option<u64> {
        match unsigned_text(text, u64::MAX as nat) {
            Some(value) => Some(value as u64),
            None => None,
        }
    }

    fn from_text(text: &str) -> (r: Option<u64>) {
        parse_unsigned(text, u64::MAX)
    }
}

impl FromText for u32 {
    open spec fn parsed(text: Seq<char>) -> Option<u32> {
        match unsigned_text(text, u32::MAX as nat) {
            Some(value) => Some(value as u32),
            None => None,
        }
    }

    fn from_text(text: &str) -> (r: Option<u32>) {
        match parse_unsigned(text, 0xffff_ffff) {
            Some(value) => Some(value as u32),
            None => None,
        }
    }
}

/// The largest number of whole seconds whose microseconds may still fit.
const WHOLE_LIMIT: u64 = 9_223_372_036_854;

/// How a decimal number lies in a text: where its digits behind the point
/// begin, and the number before the point if that is within the limit.
struct Shape {
    fraction_from: usize,
    whole: Option<u64>,
}

/// Finds the decimal number that the characters of `bytes` from `from` on are,
/// if they are one.
fn decimal_shape(bytes: &[u8], chars: Ghost<Seq<char>>, from: usize) -> (r: Option<Shape>)
    requires
        from <= bytes@.len(),
        chars@.len() == bytes@.len(),
        forall|i: int| 0 <= i < bytes@.len() ==> bytes@[i] == (#[trigger] chars@[i]) as u8,
        forall|i: int| 0 <= i < chars@.len() ==> '\0' <= #[trigger] chars@[i] <= '\u{7f}',
    ensures
        r is Some <==> is_decimal_number(chars@.skip(from as int)),
        r matches Some(shape) ==> {
            &&& from <= shape.fraction_from <= bytes@.len()
            &&& fraction_part(chars@.skip(from as int)) == chars@.subrange(
                shape.fraction_from as int,
                bytes@.len() as int,
            )
            &&& shape.whole == (if decimal(whole_part(chars@.skip(from as int))) <= WHOLE_LIMIT {
                Some(decimal(whole_part(chars@.skip(from as int))) as u64)
            } else {
                None
            })
        },
{
    let n: usize = bytes.len();
    let ghost body = chars@.skip(from as int);
    let (point, whole) = scan_digits(bytes, chars, from, WHOLE_LIMIT);
    proof {
        assert(body.take(point - from) =~= chars@.subrange(from as int, point as int));
        if point < n {
            assert(body[point - from] == chars@[point as int]);
        }
        lemma_point(body, point - from);
    }
    if point < n {
        if bytes[point] != 46 {
            return None;
        }
        let (end, _) = scan_digits(bytes, chars, point + 1, 0);
        if end < n {
            assert(body.skip(point - from + 1)[end - point - 1] == chars@[end as int]);
            return None;
        }
        assert(body.skip(point - from + 1) =~= chars@.subrange(point as int + 1, n as int));
    }
    let fraction_from: usize = if point < n {
        point + 1
    } else {
        n
    };
    assert(fraction_part(body) =~= chars@.subrange(fraction_from as int, n as int));
    if point - from + (n - fraction_from) == 0 {
        return None;
    }
    Some(Shape { fraction_from, whole })
}

/// Reads the digits of `bytes` from `from` on as millionths.
fn read_fraction(bytes: &[u8], chars: Ghost<Seq<char>>, from: usize) -> (micros: u64)
    requires
        from <= bytes@.len(),
        chars@.len() == bytes@.len(),
        forall|i: int| 0 <= i < bytes@.len() ==> bytes@[i] == (#[trigger] chars@[i]) as u8,
        forall|i: int| 0 <= i < chars@.len() ==> '\0' <= #[trigger] chars@[i] <= '\u{7f}',
        all_digits(chars@.subrange(from as int, bytes@.len() as int)),
    ensures
        micros == fraction_micros(chars@.subrange(from as int, bytes@.len() as int)),
        micros <= 999_999,
{
    let n: usize = bytes.len();
    let ghost fraction = chars@.subrange(from as int, n as int);
    let kept_to: usize = if n - from <= 6 {
        n
    } else {
        from + 6
    };
    let ghost kept = chars@.subrange(from as int, kept_to as int);
    let kept_bytes = slice_subrange(bytes, from, kept_to);
    proof {
        if fraction.len() <= 6 {
            assert(kept =~= fraction);
        } else {
            assert(kept =~= fraction.take(6));
        }
        assert forall|k: int| 0 <= k < kept.len() implies is_digit(#[trigger] kept[k]) by {
            assert(kept[k] == fraction[k]);
        }
        lemma_decimal_bound(kept);
        lemma_pow10_values();
    }
    let (kept_end, read) = scan_digits(kept_bytes, Ghost(kept), 0, 999_999);
    proof {
        if kept_end < kept.len() {
            assert(is_digit(kept[kept_end as int]));
        }
        assert(kept.subrange(0, kept_end as int) =~= kept);
    }
    scale(read.unwrap(), Ghost(kept), kept_to - from)
}

/// Gives the number of `places` digits as millionths: with zeros behind it to
/// make six digits.
fn scale(number: u64, digits: Ghost<Seq<char>>, places: usize) -> (micros: u64)
    requires
        places <= 6,
        digits@.len() == places,
        number == decimal(digits@),
        number < pow10(places as nat),
    ensures
        micros == decimal(digits@) * pow10((6 - places) as nat),
        micros <= 999_999,
{
    let mut micros: u64 = number;
    let mut at: usize = places;
    proof {
        lemma_pow10_values();
        assert(number * 1 == number);
    }
    while at < 6
        invariant
            places <= at <= 6,
            micros == number * pow10((at - places) as nat),
            micros < pow10(at as nat),
        decreases 6 - at,
    {
        proof {
            lemma_pow10_values();
            assert(pow10((at + 1 - places) as nat) == 10 * pow10((at - places) as nat));
            assert(pow10((at + 1) as nat) == 10 * pow10(at as nat));
            assert(number * (10 * pow10((at - places) as nat)) == 10 * (number * pow10(
                (at - places) as nat,
            ))) by (nonlinear_arith);
        }
        micros = micros * 10;
        at += 1;
    }
    proof {
        lemma_pow10_values();
    }
    micros
}

/// Reads a time in seconds from its text.
pub fn parse_seconds(text: &str) -> (r: Option<Seconds>)
    ensures
        r == seconds_text(text@),
{
    let bytes = match ascii_bytes(text) {
        Some(bytes) => bytes,
        None => {
            proof {
                lemma_strange_character(text@);
            }
            return None;
        },
    };
    let n: usize = bytes.len();
    let negative = n > 0 && bytes[0] == 45;
    let from: usize = if n > 0 && (bytes[0] == 43 || bytes[0] == 45) {
        1
    } else {
        0
    };
    let ghost body = text@.skip(from as int);
    proof {
        if from == 1 {
            assert(text@.drop_first() =~= body);
        } else {
            assert(text@ =~= body);
        }
    }
    let shape = match decimal_shape(bytes, Ghost(text@), from) {
        Some(shape) => shape,
        None => { return None; },
    };
    let micros: u64 = read_fraction(bytes, Ghost(text@), shape.fraction_from);
    let whole: u64 = match shape.whole {
        Some(whole) => whole,
        None => {
            assert(decimal(whole_part(body)) * 1_000_000 + micros > 0x8000_0000_0000_0000)
                by (nonlinear_arith)
                requires
                    decimal(whole_part(body)) > 9_223_372_036_854,
            ;
            return None;
        },
    };
    assert(whole * 1_000_000 + micros <= 9_223_372_036_854 * 1_000_000 + 999_999)
        by (nonlinear_arith)
        requires
            whole <= 9_223_372_036_854,
            micros <= 999_999,
    ;
    let magnitude: u64 = whole * 1_000_000 + micros;
    if negative {
        if magnitude > 0x8000_0000_0000_0000 {
            None
        } else if magnitude == 0x8000_0000_0000_0000 {
            Some(Seconds { micros: i64::MIN })
        } else {
            Some(Seconds { micros: 0 - (magnitude as i64) })
        }
    } else {
        if magnitude > 0x7fff_ffff_ffff_ffff {
            None
        } else {
            Some(Seconds { micros: magnitude as i64 })
        }
    }
}

impl FromText for Seconds {
    open spec fn parsed(text: Seq<char>) -> Option<Seconds> {
        seconds_text(text)
    }

    fn from_text(text: &str) -> (r: Option<Seconds>) {
        parse_seconds(text)
    }
}

/// A text with a character outside ASCII stands for no time.
proof fn lemma_strange_character(s: Seq<char>)
    requires
        exists|i: int| 0 <= i < s.len() && !('\0' <= #[trigger] s[i] <= '\u{7f}'),
    ensures
        seconds_text(s) is None,
{
    let at = choose|i: int| 0 <= i < s.len() && !('\0' <= #[trigger] s[i] <= '\u{7f}');
    let signed = s.len() > 0 && (s[0] == '+' || s[0] == '-');
    let body = if signed {
        s.drop_first()
    } else {
        s
    };
    let k = if signed {
        at - 1
    } else {
        at
    };
    assert(body[k] == s[at]);
    lemma_not_a_number(body, k);
}

/// A text with a character that is neither a digit nor a point is no decimal number.
proof fn lemma_not_a_number(body: Seq<char>, at: int)
    requires
        0 <= at < body.len(),
        !is_digit(body[at]),
        body[at] != '.',
    ensures
        !is_decimal_number(body),
{
    body.index_of_first_ensures('.');
    let point = point_of(body);
    if at < point {
        assert(whole_part(body)[at] == body[at]);
    } else {
        assert(fraction_part(body)[at - point - 1] == body[at]);
    }
}

/// Where the decimal point stands in a text that begins with `digits` digits
/// that no digit follows.
proof fn lemma_point(body: Seq<char>, digits: int)
    requires
        0 <= digits <= body.len(),
        all_digits(body.take(digits)),
        digits < body.len() ==> !is_digit(body[digits]),
    ensures
        digits == body.len() ==> point_of(body) == digits,
        digits < body.len() && body[digits] == '.' ==> point_of(body) == digits,
        digits < body.len() && body[digits] != '.' ==> !is_decimal_number(body),
{
    body.index_of_first_ensures('.');
    assert forall|k: int| 0 <= k < digits implies body[k] != '.' by {
        assert(is_digit(body.take(digits)[k]));
    }
    if digits < body.len() && body[digits] != '.' {
        lemma_not_a_number(body, digits);
    }
}

/// A run of digits stands for a number below ten to the power of its length.
proof fn lemma_decimal_bound(s: Seq<char>)
    requires
        all_digits(s),
    ensures
        decimal(s) < pow10(s.len()),
    decreases s.len(),
{
    if s.len() > 0 {
        assert forall|i: int| 0 <= i < s.drop_last().len() implies is_digit(
            #[trigger] s.drop_last()[i],
        ) by {
            assert(s.drop_last()[i] == s[i]);
        }
        lemma_decimal_bound(s.drop_last());
        assert(is_digit(s.last()));
    }
}

/// The first powers of ten.
proof fn lemma_pow10_values()
    ensures
        pow10(0) == 1,
        pow10(1) == 10,
        pow10(2) == 100,
        pow10(3) == 1_000,
        pow10(4) == 10_000,
        pow10(5) == 100_000,
        pow10(6) == 1_000_000,
{
    reveal_with_fuel(pow10, 7);
}

/// Reads the run of decimal digits of `bytes` that begins at `from`: where
/// the run ends, and the number it stands for if that is at most `max`.
fn scan_digits(bytes: &[u8], chars: Ghost<Seq<char>>, from: usize, max: u64) -> (r: (
    usize,
    Option<u64>,
))
    requires
        from <= bytes@.len(),
        chars@.len() == bytes@.len(),
        forall|i: int| 0 <= i < bytes@.len() ==> bytes@[i] == (#[trigger] chars@[i]) as u8,
        forall|i: int| 0 <= i < chars@.len() ==> '\0' <= #[trigger] chars@[i] <= '\u{7f}',
    ensures
        from <= r.0 <= bytes@.len(),
        all_digits(chars@.subrange(from as int, r.0 as int)),
        r.0 < bytes@.len() ==> !is_digit(chars@[r.0 as int]),
        r.1 == (if decimal(chars@.subrange(from as int, r.0 as int)) <= max {
            Some(decimal(chars@.subrange(from as int, r.0 as int)) as u64)
        } else {
            None
        }),
{
    let mut value: u64 = 0;
    let mut exceeded = false;
    let mut i: usize = from;
    while i < bytes.len() && bytes[i] >= 48 && bytes[i] <= 57
        invariant
            from <= i <= bytes@.len(),
            chars@.len() == bytes@.len(),
            forall|k: int| 0 <= k < bytes@.len() ==> bytes@[k] == (#[trigger] chars@[k]) as u8,
            forall|k: int| 0 <= k < chars@.len() ==> '\0' <= #[trigger] chars@[k] <= '\u{7f}',
            all_digits(chars@.subrange(from as int, i as int)),
            !exceeded ==> value == decimal(chars@.subrange(from as int, i as int)) && value <= max,
            exceeded ==> decimal(chars@.subrange(from as int, i as int)) > max,
        decreases bytes@.len() - i,
    {
        let byte: u8 = bytes[i];
        let ghost c = chars@[i as int];
        proof {
            let longer = chars@.subrange(from as int, i as int + 1);
            assert(longer.drop_last() =~= chars@.subrange(from as int, i as int));
            assert(longer.last() == c);
            assert(is_digit(c));
            assert forall|k: int| 0 <= k < longer.len() implies is_digit(#[trigger] longer[k]) by {
                if k < longer.len() - 1 {
                    assert(longer[k] == chars@.subrange(from as int, i as int)[k]);
                }
            }
        }
        let digit: u64 = (byte - 48) as u64;
        assert(digit == digit_value(c));
        if !exceeded {
            if digit > max || value > (max - digit) / 10 {
                exceeded = true;
            } else {
                value = value * 10 + digit;
            }
        }
        i += 1;
    }
    proof {
        if i < bytes@.len() {
            let c = chars@[i as int];
            assert(bytes@[i as int] == c as u8);
            assert(!is_digit(c));
        }
    }
    if exceeded {
        (i, None)
    } else {
        (i, Some(value))
    }
}

} // verus!
