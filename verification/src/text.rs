//! Small readers of text: equality, trimming, and numbers in decimal.
use vstd::prelude::*;
use vstd::string::StrSliceExecFns;

verus! {

/// Whether `c` is white space: a character with the Unicode property
/// White_Space.
pub open spec fn is_white_space(c: char) -> bool {
    ||| '\u{9}' <= c <= '\u{D}'
    ||| c == ' '
    ||| c == '\u{85}'
    ||| c == '\u{A0}'
    ||| c == '\u{1680}'
    ||| '\u{2000}' <= c <= '\u{200A}'
    ||| c == '\u{2028}'
    ||| c == '\u{2029}'
    ||| c == '\u{202F}'
    ||| c == '\u{205F}'
    ||| c == '\u{3000}'
}

/// The text without the white space at its beginning.
pub open spec fn trimmed_start(text: Seq<char>) -> Seq<char>
    decreases text.len(),
{
    if text.len() > 0 && is_white_space(text.first()) {
        trimmed_start(text.drop_first())
    } else {
        text
    }
}

/// The text without the white space at its end.
pub open spec fn trimmed_end(text: Seq<char>) -> Seq<char>
    decreases text.len(),
{
    if text.len() > 0 && is_white_space(text.last()) {
        trimmed_end(text.drop_last())
    } else {
        text
    }
}

/// The text without the white space at its two ends.
pub open spec fn trimmed(text: Seq<char>) -> Seq<char> {
    trimmed_end(trimmed_start(text))
}

/// The text without the white space at its two ends.
///
/// Trusted: calls `str::trim` of the standard library, which returns the
/// slice that is left when leading and trailing white space is removed,
/// white space being the characters with the Unicode property White_Space.
/// The contract claims that, with the characters of that property listed
/// in `is_white_space`.
#[verifier::external_body]
pub(crate) fn trim(text: &str) -> (r: &str)
    ensures
        r@ == trimmed(text@),
{
    text.trim()
}

/// What is cut off at the beginning of a text is white space, and what is
/// left does not begin with any.
pub proof fn lemma_trimmed_start(text: Seq<char>)
    ensures
        trimmed_start(text).len() <= text.len(),
        trimmed_start(text) == text.skip(text.len() - trimmed_start(text).len()),
        forall|i: int|
            0 <= i < text.len() - trimmed_start(text).len() ==> is_white_space(#[trigger] text[i]),
        trimmed_start(text).len() > 0 ==> !is_white_space(trimmed_start(text).first()),
    decreases text.len(),
{
    if text.len() > 0 && is_white_space(text.first()) {
        let rest = text.drop_first();
        lemma_trimmed_start(rest);
        let cut = rest.len() - trimmed_start(rest).len();
        assert(rest.skip(cut) =~= text.skip(cut + 1));
        assert forall|i: int| 0 <= i < cut + 1 implies is_white_space(#[trigger] text[i]) by {
            if i > 0 {
                assert(text[i] == rest[i - 1]);
            }
        }
    } else {
        assert(text.skip(0) =~= text);
    }
}

/// What is cut off at the end of a text is white space, and what is left
/// does not end with any.
pub proof fn lemma_trimmed_end(text: Seq<char>)
    ensures
        trimmed_end(text).len() <= text.len(),
        trimmed_end(text) == text.take(trimmed_end(text).len() as int),
        forall|i: int|
            trimmed_end(text).len() <= i < text.len() ==> is_white_space(#[trigger] text[i]),
        trimmed_end(text).len() > 0 ==> !is_white_space(trimmed_end(text).last()),
    decreases text.len(),
{
    if text.len() > 0 && is_white_space(text.last()) {
        let rest = text.drop_last();
        lemma_trimmed_end(rest);
        let kept = trimmed_end(rest).len() as int;
        assert(rest.take(kept) =~= text.take(kept));
        assert forall|i: int| kept <= i < text.len() implies is_white_space(#[trigger] text[i]) by {
            if i < rest.len() {
                assert(text[i] == rest[i]);
            }
        }
    } else {
        assert(text.take(text.len() as int) =~= text);
    }
}

/// Trimming cuts a text down to the part between two places: all before
/// the first and all from the second on is white space, and the part
/// neither begins nor ends with white space.
pub proof fn lemma_trimmed(text: Seq<char>) -> (r: (int, int))
    ensures
        0 <= r.0 <= r.1 <= text.len(),
        trimmed(text) == text.subrange(r.0, r.1),
        forall|i: int| 0 <= i < r.0 ==> is_white_space(#[trigger] text[i]),
        forall|i: int| r.1 <= i < text.len() ==> is_white_space(#[trigger] text[i]),
        r.0 < r.1 ==> !is_white_space(text[r.0]) && !is_white_space(text[r.1 - 1]),
{
    let middle = trimmed_start(text);
    lemma_trimmed_start(text);
    lemma_trimmed_end(middle);
    let from = text.len() - middle.len();
    let to = from + trimmed(text).len();
    assert(trimmed(text) =~= text.subrange(from, to));
    assert forall|i: int| to <= i < text.len() implies is_white_space(#[trigger] text[i]) by {
        assert(text[i] == middle[i - from]);
    }
    if from < to {
        assert(middle.first() == text[from]);
        assert(trimmed(text).last() == text[to - 1]);
        if is_white_space(text[from]) {
            assert(false);
        }
    }
    (from, to)
}

/// A text that neither begins nor ends with white space is trimmed to
/// itself.
pub proof fn lemma_trimmed_unchanged(text: Seq<char>)
    requires
        text.len() > 0 ==> !is_white_space(text.first()) && !is_white_space(text.last()),
    ensures
        trimmed(text) == text,
{
}

/// Whether two texts are the same, character by character.
pub fn same_text(a: &str, b: &str) -> (r: bool)
    ensures
        r == (a@ == b@),
{
    let n = a.unicode_len();
    if n != b.unicode_len() {
        return false;
    }
    let mut i: usize = 0;
    while i < n
        invariant
            i <= n == a@.len() == b@.len(),
            forall|j: int| 0 <= j < i ==> a@[j] == b@[j],
        decreases n - i,
    {
        if a.get_char(i) != b.get_char(i) {
            return false;
        }
        i += 1;
    }
    assert(a@ =~= b@);
    true
}

/// Whether `c` is one of the ten decimal digits.
pub open spec fn is_digit(c: char) -> bool {
    '0' <= c <= '9'
}

/// The number that a sequence of decimal digits writes, most significant
/// digit first.
pub open spec fn decimal_value(digits: Seq<char>) -> nat
    decreases digits.len(),
{
    if digits.len() == 0 {
        0
    } else {
        10 * decimal_value(digits.drop_last()) + (digits.last() as nat - '0' as nat) as nat
    }
}

/// The digits of a number written as text: the text itself, or what
/// follows a leading plus sign.
pub open spec fn digits_of(text: Seq<char>) -> Seq<char> {
    if text.len() > 0 && text[0] == '+' {
        text.skip(1)
    } else {
        text
    }
}

/// The number below 256 that `text` writes in decimal, if it writes one:
/// an optional plus sign, then one digit or more and nothing else.
pub open spec fn small_number(text: Seq<char>) -> Option<u8> {
    let digits = digits_of(text);
    if digits.len() > 0 && (forall|i: int| 0 <= i < digits.len() ==> is_digit(#[trigger] digits[i]))
        && decimal_value(digits) <= u8::MAX {
        Some(decimal_value(digits) as u8)
    } else {
        None
    }
}

/// A number does not shrink when digits are appended.
pub proof fn lemma_decimal_value_grows(digits: Seq<char>, k: int)
    requires
        0 <= k <= digits.len(),
        forall|i: int| 0 <= i < digits.len() ==> is_digit(#[trigger] digits[i]),
    ensures
        decimal_value(digits.take(k)) <= decimal_value(digits),
    decreases digits.len() - k,
{
    if k == digits.len() {
        assert(digits.take(k) =~= digits);
    } else {
        let front = digits.drop_last();
        assert(is_digit(digits[digits.len() - 1]));
        if k == front.len() {
            assert(digits.take(k) =~= front);
        } else {
            assert(front.take(k) =~= digits.take(k));
            assert forall|i: int| 0 <= i < front.len() implies is_digit(#[trigger] front[i]) by {
                assert(front[i] == digits[i]);
            }
            lemma_decimal_value_grows(front, k);
        }
    }
}

/// Reads a number below 256 written in decimal.
pub fn parse_small_number(text: &str) -> (r: Option<u8>)
    ensures
        r == small_number(text@),
{
    let n = text.unicode_len();
    let start: usize = if n > 0 && text.get_char(0) == '+' {
        1
    } else {
        0
    };
    let ghost digits = digits_of(text@);
    assert(digits =~= text@.skip(start as int));
    if start == n {
        return None;
    }
    let mut value: u32 = 0;
    let mut i: usize = start;
    while i < n
        invariant
            start <= i <= n == text@.len(),
            digits == digits_of(text@),
            digits == text@.skip(start as int),
            forall|j: int| 0 <= j < i - start ==> is_digit(#[trigger] digits[j]),
            value == decimal_value(digits.take(i - start)),
            value <= u8::MAX,
        decreases n - i,
    {
        let c = text.get_char(i);
        assert(digits[i - start] == c);
        if !(c >= '0' && c <= '9') {
            assert(!is_digit(digits[i - start]));
            return None;
        }
        let digit: u32 = c as u32 - '0' as u32;
        proof {
            assert(digits.take(i + 1 - start).drop_last() =~= digits.take(i - start));
        }
        value = 10 * value + digit;
        if value > u8::MAX as u32 {
            proof {
                if forall|j: int| 0 <= j < digits.len() ==> is_digit(#[trigger] digits[j]) {
                    lemma_decimal_value_grows(digits, i + 1 - start);
                    assert(decimal_value(digits) > u8::MAX);
                }
            }
            return None;
        }
        i += 1;
    }
    assert(digits.take(i - start) =~= digits);
    Some(value as u8)
}

} // verus!
