//! Small verified helpers on text: comparing, testing a suffix, and
//! writing and reading decimal numbers.

use vstd::prelude::*;
use vstd::string::StrSliceExecFns;
use vstd::string::StringExecFns;
use vstd::string::StringSliceAdditionalSpecFns;

verus! {

/// Whether two string slices hold the same characters.
///
/// The comparison runs over the UTF-8 bytes; since the encoding is
/// injective, equal bytes mean equal characters.
pub fn same_text(a: &str, b: &str) -> (same: bool)
    ensures
        same == (a@ == b@),
{
    let x = a.as_bytes();
    let y = b.as_bytes();
    proof {
        vstd::utf8::encode_utf8_decode_utf8(a@);
        vstd::utf8::encode_utf8_decode_utf8(b@);
    }
    if x.len() != y.len() {
        return false;
    }
    let mut i: usize = 0;
    while i < x.len()
        invariant
            x@ == a.spec_bytes(),
            y@ == b.spec_bytes(),
            x@.len() == y@.len(),
            i <= x@.len(),
            forall|j: int| 0 <= j < i ==> x@[j] == y@[j],
        decreases x@.len() - i,
    {
        if x[i] != y[i] {
            return false;
        }
        i += 1;
    }
    assert(x@ =~= y@);
    true
}

/// Whether `text` ends with `suffix`.
pub open spec fn ends_with_spec(text: Seq<char>, suffix: Seq<char>) -> bool {
    text.len() >= suffix.len() && text.subrange(text.len() - suffix.len(), text.len() as int)
        == suffix
}

/// Whether `text` ends with `suffix`, character by character.
pub fn ends_with(text: &str, suffix: &str) -> (found: bool)
    ensures
        found == ends_with_spec(text@, suffix@),
{
    let n = text.unicode_len();
    let k = suffix.unicode_len();
    if n < k {
        return false;
    }
    let start = n - k;
    let ghost tail = text@.subrange(start as int, n as int);
    let mut j: usize = 0;
    while j < k
        invariant
            n == text@.len(),
            k == suffix@.len(),
            start == n - k,
            j <= k,
            tail == text@.subrange(start as int, n as int),
            forall|i: int| 0 <= i < j ==> tail[i] == suffix@[i],
        decreases k - j,
    {
        if text.get_char(start + j) != suffix.get_char(j) {
            assert(tail[j as int] != suffix@[j as int]);
            return false;
        }
        j += 1;
    }
    assert(tail =~= suffix@);
    true
}

/// The character that stands for the digit `d`.
pub open spec fn digit_char(d: nat) -> char {
    if d == 0 {
        '0'
    } else if d == 1 {
        '1'
    } else if d == 2 {
        '2'
    } else if d == 3 {
        '3'
    } else if d == 4 {
        '4'
    } else if d == 5 {
        '5'
    } else if d == 6 {
        '6'
    } else if d == 7 {
        '7'
    } else if d == 8 {
        '8'
    } else {
        '9'
    }
}

/// The decimal digits of `n`, most significant first, without leading zeros.
pub open spec fn decimal_text(n: nat) -> Seq<char>
    decreases n,
{
    if n < 10 {
        seq![digit_char(n)]
    } else {
        decimal_text(n / 10).push(digit_char(n % 10))
    }
}

/// The one-character text of a digit.
fn digit_text(d: u64) -> (text: &'static str)
    requires
        d < 10,
    ensures
        text@ == seq![digit_char(d as nat)],
{
    proof {
        reveal_strlit("0");
        reveal_strlit("1");
        reveal_strlit("2");
        reveal_strlit("3");
        reveal_strlit("4");
        reveal_strlit("5");
        reveal_strlit("6");
        reveal_strlit("7");
        reveal_strlit("8");
        reveal_strlit("9");
    }
    if d == 0 {
        "0"
    } else if d == 1 {
        "1"
    } else if d == 2 {
        "2"
    } else if d == 3 {
        "3"
    } else if d == 4 {
        "4"
    } else if d == 5 {
        "5"
    } else if d == 6 {
        "6"
    } else if d == 7 {
        "7"
    } else if d == 8 {
        "8"
    } else {
        "9"
    }
}

/// Appends the decimal digits of `n` to `out`.
pub fn push_decimal(out: &mut String, n: u64)
    ensures
        final(out)@ == old(out)@ + decimal_text(n as nat),
    decreases n,
{
    if n >= 10 {
        push_decimal(out, n / 10);
    }
    out.append(digit_text(n % 10));
    assert(out@ =~= old(out)@ + decimal_text(n as nat));
}

/// The value of a decimal digit character.
pub open spec fn digit_value(c: char) -> int {
    c as int - '0' as int
}

/// Whether `c` is one of the characters `0` to `9`.
pub open spec fn is_digit(c: char) -> bool {
    0 <= digit_value(c) <= 9
}

/// Whether `digits` holds decimal digits only.
pub open spec fn all_digits(digits: Seq<char>) -> bool {
    forall|i: int| 0 <= i < digits.len() ==> is_digit(#[trigger] digits[i])
}

/// The number that a sequence of decimal digits writes.
pub open spec fn digits_value(digits: Seq<char>) -> int
    decreases digits.len(),
{
    if digits.len() == 0 {
        0
    } else {
        digits_value(digits.drop_last()) * 10 + digit_value(digits.last())
    }
}

/// `text` without one leading plus sign.
pub open spec fn unsigned_part(text: Seq<char>) -> Seq<char> {
    if text.len() > 0 && text[0] == '+' {
        text.drop_first()
    } else {
        text
    }
}

/// The number that `text` writes in decimal: an optional plus sign followed
/// by one or more digits, and nothing else. Leading zeros are accepted.
pub open spec fn decimal_value(text: Seq<char>) -> Option<int> {
    let digits = unsigned_part(text);
    if digits.len() > 0 && all_digits(digits) {
        Some(digits_value(digits))
    } else {
        None
    }
}

/// The number that `text` writes in decimal, if it writes one that is at
/// most `limit`.
pub open spec fn bounded_decimal(text: Seq<char>, limit: usize) -> Option<usize> {
    match decimal_value(text) {
        Some(value) => if 0 <= value <= limit {
            Some(value as usize)
        } else {
            None
        },
        None => None,
    }
}

/// A number of digits is at least the number that any of its prefixes writes.
pub proof fn lemma_digits_value_grows(digits: Seq<char>, k: int)
    requires
        all_digits(digits),
        0 <= k <= digits.len(),
    ensures
        0 <= digits_value(digits.take(k)) <= digits_value(digits),
    decreases digits.len() - k,
{
    if k == digits.len() {
        assert(digits.take(k) =~= digits);
        lemma_digits_value_nonnegative(digits);
    } else {
        lemma_digits_value_grows(digits, k + 1);
        assert(digits.take(k + 1).drop_last() =~= digits.take(k));
        assert(is_digit(digits[k]));
        assert(all_digits(digits.take(k))) by {
            assert forall|i: int| 0 <= i < k implies is_digit(#[trigger] digits.take(k)[i]) by {
                assert(digits.take(k)[i] == digits[i]);
            }
        }
        lemma_digits_value_nonnegative(digits.take(k));
    }
}

/// A number written in digits is not negative.
pub proof fn lemma_digits_value_nonnegative(digits: Seq<char>)
    requires
        all_digits(digits),
    ensures
        0 <= digits_value(digits),
    decreases digits.len(),
{
    if digits.len() > 0 {
        assert(is_digit(digits.last()));
        assert(all_digits(digits.drop_last())) by {
            assert forall|i: int| 0 <= i < digits.len() - 1 implies is_digit(
                #[trigger] digits.drop_last()[i],
            ) by {
                assert(digits.drop_last()[i] == digits[i]);
            }
        }
        lemma_digits_value_nonnegative(digits.drop_last());
    }
}

/// Reads a decimal number that is at most `limit`. Returns `None` for text
/// that is not a decimal number and for a number above `limit`.
pub fn parse_decimal_up_to(text: &str, limit: usize) -> (value: Option<usize>)
    ensures
        value == bounded_decimal(text@, limit),
{
    if !text.is_ascii() {
        proof {
            let i = choose|i: int|
                0 <= i < text@.len() && !('\0' <= #[trigger] text@[i] <= '\u{7f}');
            let digits = unsigned_part(text@);
            if digits.len() == text@.len() {
                assert(!is_digit(digits[i]));
            } else {
                assert(i > 0);
                assert(digits[i - 1] == text@[i]);
                assert(!is_digit(digits[i - 1]));
            }
        }
        return None;
    }
    proof {
        vstd::utf8::is_ascii_chars_encode_utf8(text@);
    }
    let bytes = text.as_bytes();
    let n = bytes.len();
    assert(n == text@.len());
    let first: usize = if n > 0 && bytes[0] == 43u8 {
        1
    } else {
        0
    };
    let ghost digits = unsigned_part(text@);
    proof {
        if n > 0 {
            assert('\0' <= text@[0] <= '\u{7f}');
            assert((text@[0] == '+') == (text@[0] as u8 == 43u8));
            assert(text@.skip(1) =~= text@.drop_first());
        }
        assert(text@.skip(0) =~= text@);
        assert(digits =~= text@.skip(first as int));
    }
    if first == n {
        return None;
    }
    let mut value: usize = 0;
    let mut i: usize = first;
    assert(digits.take(0) =~= Seq::<char>::empty());
    while i < n
        invariant
            vstd::utf8::is_ascii_chars(text@),
            bytes@ == text.spec_bytes(),
            n == text@.len(),
            n == bytes@.len(),
            first <= i <= n,
            first < n,
            digits == unsigned_part(text@),
            digits == text@.skip(first as int),
            all_digits(digits.take(i - first)),
            value == digits_value(digits.take(i - first)),
            value <= limit,
        decreases n - i,
    {
        let byte = bytes[i];
        proof {
            vstd::utf8::is_ascii_chars_encode_utf8(text@);
            assert('\0' <= text@[i as int] <= '\u{7f}');
            assert(byte as int == text@[i as int] as int);
            assert(digits[i - first] == text@[i as int]);
            assert(digits.take(i - first + 1).drop_last() =~= digits.take(i - first));
            assert(digits.take(i - first + 1).last() == digits[i - first]);
        }
        if byte < 48u8 || byte > 57u8 {
            assert(!is_digit(digits[i - first]));
            return None;
        }
        let digit: usize = (byte - 48u8) as usize;
        assert(digit == digit_value(digits[i - first]));
        assert(all_digits(digits.take(i - first + 1))) by {
            assert forall|j: int| 0 <= j < i - first + 1 implies is_digit(
                #[trigger] digits.take(i - first + 1)[j],
            ) by {
                if j < i - first {
                    assert(digits.take(i - first)[j] == digits[j]);
                }
            }
        }
        if value > limit / 10 || digit > limit - value * 10 {
            proof {
                assert(digits_value(digits.take(i - first + 1)) > limit);
                if all_digits(digits) {
                    lemma_digits_value_grows(digits, i - first + 1);
                }
            }
            return None;
        }
        value = value * 10 + digit;
        i += 1;
    }
    assert(digits.take(n - first) =~= digits);
    Some(value)
}

} // verus!
