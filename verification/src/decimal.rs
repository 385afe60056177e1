//! Decimal notation for integers.
//!
//! Store keys, heartbeat values and session tokens all travel as text. This
//! module fixes the notation: an optional sign, `+` or `-`, followed by one or
//! more of the digits `0` to `9`, and nothing else.

use vstd::prelude::*;
use vstd::string::*;

verus! {

/// Whether `c` is one of the ten decimal digits.
pub open spec fn is_digit(c: char) -> bool {
    '0' <= c <= '9'
}

/// The number that the digit `c` stands for.
pub open spec fn digit_value(c: char) -> int {
    c as int - '0' as int
}

/// The digit that stands for `d`, where `d` is less than ten.
pub open spec fn digit_char(d: int) -> char {
    if d == 0 {
        '0'
    } else if d == 1 {
        '1'
    } else if d == 2 {
        '2'
    } else if d == 3 {
        '3'
    } else if d == 4 {
        '4'
    } else if d == 5 {
        '5'
    } else if d == 6 {
        '6'
    } else if d == 7 {
        '7'
    } else if d == 8 {
        '8'
    } else {
        '9'
    }
}

/// Whether `s` holds decimal digits only.
pub open spec fn all_digits(s: Seq<char>) -> bool {
    forall|i: int| 0 <= i < s.len() ==> is_digit(#[trigger] s[i])
}

/// The number that a run of digits denotes, most significant digit first.
pub open spec fn digits_value(s: Seq<char>) -> int
    decreases s.len(),
{
    if s.len() == 0 {
        0
    } else {
        digits_value(s.drop_last()) * 10 + digit_value(s.last())
    }
}

/// The integer that `s` denotes, or `None` where `s` is no decimal numeral.
pub open spec fn decimal_value(s: Seq<char>) -> Option<int> {
    if s.len() > 0 && (s[0] == '-' || s[0] == '+') {
        let body = s.skip(1);
        if body.len() > 0 && all_digits(body) {
            if s[0] == '-' {
                Some(-digits_value(body))
            } else {
                Some(digits_value(body))
            }
        } else {
            None
        }
    } else if s.len() > 0 && all_digits(s) {
        Some(digits_value(s))
    } else {
        None
    }
}

/// The integer that `s` denotes where it fits in 64 bits with a sign, and
/// `None` for every other text.
pub open spec fn decimal_i64(s: Seq<char>) -> Option<i64> {
    match decimal_value(s) {
        Some(v) => if i64::MIN <= v <= i64::MAX {
            Some(v as i64)
        } else {
            None
        },
        None => None,
    }
}

/// The digits of the natural number `n`, without leading zeros.
pub open spec fn digits_text(n: nat) -> Seq<char>
    decreases n,
{
    if n < 10 {
        seq![digit_char(n as int)]
    } else {
        digits_text(n / 10).push(digit_char((n % 10) as int))
    }
}

/// The canonical numeral of `v`: a `-` for a negative number, then the
/// digits without leading zeros.
pub open spec fn decimal_text(v: int) -> Seq<char> {
    if v < 0 {
        seq!['-'] + digits_text((-v) as nat)
    } else {
        digits_text(v as nat)
    }
}

/// Appending a digit to a run of digits multiplies its value by ten and adds
/// the digit.
proof fn lemma_digits_value_push(s: Seq<char>, c: char)
    ensures
        digits_value(s.push(c)) == digits_value(s) * 10 + digit_value(c),
{
    assert(s.push(c).drop_last() =~= s);
}

/// A run of digits denotes a natural number, and no less than any run that
/// it extends.
proof fn lemma_digits_value_grows(s: Seq<char>, k: int)
    requires
        all_digits(s),
        0 <= k <= s.len(),
    ensures
        0 <= digits_value(s.subrange(0, k)) <= digits_value(s),
    decreases s.len() - k,
{
    if k == s.len() {
        assert(s.subrange(0, k) =~= s);
        lemma_digits_value_bounds(s);
    } else {
        lemma_digits_value_grows(s, k + 1);
        let longer = s.subrange(0, k + 1);
        assert(longer.drop_last() =~= s.subrange(0, k));
        assert(longer.last() == s[k]);
        assert(is_digit(s[k]));
        assert(all_digits(s.subrange(0, k))) by {
            assert forall|i: int| 0 <= i < k implies is_digit(#[trigger] s.subrange(0, k)[i]) by {
                assert(s.subrange(0, k)[i] == s[i]);
            }
        }
        lemma_digits_value_bounds(s.subrange(0, k));
    }
}

/// A run of digits denotes a natural number.
proof fn lemma_digits_value_bounds(s: Seq<char>)
    requires
        all_digits(s),
    ensures
        0 <= digits_value(s),
    decreases s.len(),
{
    if s.len() > 0 {
        assert(all_digits(s.drop_last())) by {
            assert forall|i: int| 0 <= i < s.len() - 1 implies is_digit(
                #[trigger] s.drop_last()[i],
            ) by {
                assert(s.drop_last()[i] == s[i]);
            }
        }
        lemma_digits_value_bounds(s.drop_last());
        assert(is_digit(s.last()));
    }
}

/// The digits written for a natural number are digits, and denote it.
pub proof fn lemma_digits_text_value(n: nat)
    ensures
        digits_text(n).len() > 0,
        all_digits(digits_text(n)),
        digits_value(digits_text(n)) == n,
    decreases n,
{
    if n < 10 {
        let s = digits_text(n);
        assert(s.drop_last() =~= Seq::<char>::empty());
        assert(digits_value(s.drop_last()) == 0);
    } else {
        lemma_digits_text_value(n / 10);
        let head = digits_text(n / 10);
        let c = digit_char((n % 10) as int);
        lemma_digits_value_push(head, c);
        assert forall|i: int| 0 <= i < head.push(c).len() implies is_digit(
            #[trigger] head.push(c)[i],
        ) by {
            if i < head.len() {
                assert(head.push(c)[i] == head[i]);
            }
        }
    }
}

/// The canonical numeral of an integer holds digits and, at its start only,
/// a `-`: nothing that would not read as part of a numeral.
pub proof fn lemma_decimal_text_chars(v: int)
    ensures
        decimal_text(v).len() > 0,
        forall|i: int|
            0 <= i < decimal_text(v).len() ==> is_digit(#[trigger] decimal_text(v)[i]) || (i == 0
                && decimal_text(v)[i] == '-'),
        is_digit(decimal_text(v).last()),
{
    if v < 0 {
        lemma_digits_text_value((-v) as nat);
        let body = digits_text((-v) as nat);
        assert forall|i: int| 0 <= i < decimal_text(v).len() implies is_digit(
            #[trigger] decimal_text(v)[i],
        ) || (i == 0 && decimal_text(v)[i] == '-') by {
            if i > 0 {
                assert(decimal_text(v)[i] == body[i - 1]);
            }
        }
        assert(decimal_text(v).last() == body.last());
    } else {
        lemma_digits_text_value(v as nat);
    }
}

/// Reading the canonical numeral of an integer gives the integer back.
pub proof fn lemma_decimal_round_trip(v: int)
    ensures
        decimal_value(decimal_text(v)) == Some(v),
{
    if v < 0 {
        let body = digits_text((-v) as nat);
        lemma_digits_text_value((-v) as nat);
        let s = seq!['-'] + body;
        assert(s.skip(1) =~= body);
        assert(s[0] == '-');
    } else {
        let s = digits_text(v as nat);
        lemma_digits_text_value(v as nat);
        assert(is_digit(s[0]));
    }
}

/// Two integers with one canonical numeral are one integer.
pub proof fn lemma_decimal_text_injective(a: int, b: int)
    requires
        decimal_text(a) == decimal_text(b),
    ensures
        a == b,
{
    lemma_decimal_round_trip(a);
    lemma_decimal_round_trip(b);
}

/// The ASCII code of `-`.
const MINUS: u8 = 45;

/// The ASCII code of `+`.
const PLUS: u8 = 43;

/// The ASCII code of `0`.
const DIGIT_ZERO: u8 = 48;

/// The ASCII code of `9`.
const DIGIT_NINE: u8 = 57;

/// The largest magnitude that fits in 64 bits with a sign: that of `i64::MIN`.
const MAGNITUDE_LIMIT: u128 = 0x8000_0000_0000_0000;

/// Reads a decimal numeral.
///
/// Returns the integer that `text` denotes where `text` is an optional sign
/// followed by one or more digits and the integer fits in an `i64`, and
/// `None` for every other text.
pub fn parse_decimal(text: &str) -> (parsed: Option<i64>)
    ensures
        parsed == decimal_i64(text@),
{
    if !text.is_ascii() {
        proof {
            lemma_numerals_are_ascii(text@);
        }
        return None;
    }
    let bytes = text.as_bytes();
    let n = bytes.len();
    proof {
        vstd::utf8::is_ascii_chars_encode_utf8(text@);
    }
    if n == 0 {
        return None;
    }
    let first = bytes[0];
    let negative = first == MINUS;
    let start: usize = if first == MINUS || first == PLUS {
        1
    } else {
        0
    };
    if start == n {
        return None;
    }
    let ghost body = text@.skip(start as int);
    assert('\0' <= text@[0] <= '\u{7f}');
    assert(text@[0] as u8 == bytes@[0]);
    let mut magnitude: u128 = 0;
    let mut i: usize = start;
    while i < n
        invariant
            start <= i <= n,
            start < n,
            start == 1 <==> text@[0] == '-' || text@[0] == '+',
            start == 0 || start == 1,
            negative <==> text@[0] == '-',
            n == text@.len(),
            n == bytes@.len(),
            body == text@.skip(start as int),
            forall|k: int| 0 <= k < n ==> text@[k] as u8 == #[trigger] bytes@[k],
            vstd::utf8::is_ascii_chars(text@),
            all_digits(body.subrange(0, i - start)),
            magnitude == digits_value(body.subrange(0, i - start)),
            magnitude <= MAGNITUDE_LIMIT,
        decreases n - i,
    {
        let b = bytes[i];
        let ghost c = text@[i as int];
        assert(c == body[i - start]);
        assert('\0' <= c <= '\u{7f}');
        if b < DIGIT_ZERO || b > DIGIT_NINE {
            assert(!is_digit(c));
            return None;
        }
        assert(is_digit(c));
        let ghost seen = body.subrange(0, i - start);
        let ghost longer = body.subrange(0, i - start + 1);
        proof {
            assert(longer =~= seen.push(c));
            lemma_digits_value_push(seen, c);
            assert forall|k: int| 0 <= k < longer.len() implies is_digit(#[trigger] longer[k]) by {
                if k < seen.len() {
                    assert(longer[k] == seen[k]);
                }
            }
        }
        magnitude = magnitude * 10 + (b - DIGIT_ZERO) as u128;
        assert(magnitude == digits_value(longer));
        if magnitude > MAGNITUDE_LIMIT {
            proof {
                assert(text@.skip(0) =~= text@);
                if all_digits(body) {
                    lemma_digits_value_grows(body, i - start + 1);
                }
            }
            return None;
        }
        i += 1;
    }
    assert(body.subrange(0, n - start) =~= body);
    assert(text@.skip(0) =~= text@);
    if negative {
        if magnitude == MAGNITUDE_LIMIT {
            Some(i64::MIN)
        } else {
            Some(-(magnitude as i64))
        }
    } else if magnitude == MAGNITUDE_LIMIT {
        None
    } else {
        Some(magnitude as i64)
    }
}

/// A text that holds a character outside ASCII is no decimal numeral.
proof fn lemma_numerals_are_ascii(s: Seq<char>)
    requires
        !vstd::utf8::is_ascii_chars(s),
    ensures
        decimal_value(s) is None,
{
    let i = choose|i: int| 0 <= i < s.len() && !('\0' <= #[trigger] s[i] <= '\u{7f}');
    assert(!is_digit(s[i]));
    if s[0] == '-' || s[0] == '+' {
        assert(i >= 1);
        assert(s.skip(1)[i - 1] == s[i]);
    }
}

/// The one-character text of a digit.
fn digit_str(d: u64) -> (text: &'static str)
    requires
        d < 10,
    ensures
        text@ == seq![digit_char(d as int)],
{
    proof {
        reveal_strlit("0");
        reveal_strlit("1");
        reveal_strlit("2");
        reveal_strlit("3");
        reveal_strlit("4");
        reveal_strlit("5");
        reveal_strlit("6");
        reveal_strlit("7");
        reveal_strlit("8");
        reveal_strlit("9");
    }
    let text = match d {
        0 => "0",
        1 => "1",
        2 => "2",
        3 => "3",
        4 => "4",
        5 => "5",
        6 => "6",
        7 => "7",
        8 => "8",
        _ => "9",
    };
    assert(text@ =~= seq![digit_char(d as int)]);
    text
}

/// Appends the digits of `n` to `out`.
fn push_digits(out: &mut String, n: u64)
    ensures
        final(out)@ == old(out)@ + digits_text(n as nat),
    decreases n,
{
    if n >= 10 {
        push_digits(out, n / 10);
    }
    out.append(digit_str(n % 10));
    proof {
        if n >= 10 {
            assert(old(out)@ + digits_text((n / 10) as nat) + seq![digit_char((n % 10) as int)]
                =~= old(out)@ + digits_text((n / 10) as nat).push(digit_char((n % 10) as int)));
        }
    }
}

/// Writes the canonical decimal numeral of `value`.
pub fn format_decimal(value: i64) -> (text: String)
    ensures
        text@ == decimal_text(value as int),
{
    let mut text = String::new();
    if value < 0 {
        proof {
            reveal_strlit("-");
        }
        text.append("-");
        let magnitude: u64 = if value == i64::MIN {
            0x8000_0000_0000_0000
        } else {
            (-value) as u64
        };
        push_digits(&mut text, magnitude);
        assert(text@ =~= seq!['-'] + digits_text((-value) as nat));
    } else {
        push_digits(&mut text, value as u64);
        assert(text@ =~= digits_text(value as nat));
    }
    text
}

} // verus!
