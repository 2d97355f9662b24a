//! Reading what a user typed: surrounding white space and decimal numbers.

use vstd::prelude::*;

verus! {

/// The characters that count as white space: those that Unicode marks as
/// `White_Space`.
pub open spec fn is_white_space(c: char) -> bool {
    let code = c as u32;
    ||| 0x09 <= code <= 0x0D
    ||| code == 0x20
    ||| code == 0x85
    ||| code == 0xA0
    ||| code == 0x1680
    ||| 0x2000 <= code <= 0x200A
    ||| code == 0x2028
    ||| code == 0x2029
    ||| code == 0x202F
    ||| code == 0x205F
    ||| code == 0x3000
}

/// The text without the white space it starts with.
pub open spec fn trim_start(text: Seq<char>) -> Seq<char>
    decreases text.len(),
{
    if text.len() > 0 && is_white_space(text.first()) {
        trim_start(text.drop_first())
    } else {
        text
    }
}

/// The text without the white space it ends with.
pub open spec fn trim_end(text: Seq<char>) -> Seq<char>
    decreases text.len(),
{
    if text.len() > 0 && is_white_space(text.last()) {
        trim_end(text.drop_last())
    } else {
        text
    }
}

/// The text without the white space around it.
pub open spec fn trimmed(text: Seq<char>) -> Seq<char> {
    trim_end(trim_start(text))
}

/// One of the ten decimal digits.
pub open spec fn is_digit(c: char) -> bool {
    0x30 <= c as u32 <= 0x39
}

/// The value of a decimal digit.
pub open spec fn digit_of(c: char) -> nat {
    (c as u32 - 0x30) as nat
}

/// Every character is a decimal digit.
pub open spec fn all_digits(text: Seq<char>) -> bool {
    forall|i: int| 0 <= i < text.len() ==> is_digit(#[trigger] text[i])
}

/// The number that a run of decimal digits writes.
pub open spec fn decimal_of(digits: Seq<char>) -> nat
    decreases digits.len(),
{
    if digits.len() == 0 {
        0
    } else {
        decimal_of(digits.drop_last()) * 10 + digit_of(digits.last())
    }
}

/// The text without a plus sign in front, if it has one.
pub open spec fn unsigned(text: Seq<char>) -> Seq<char> {
    if text.len() > 0 && text.first() == '+' {
        text.drop_first()
    } else {
        text
    }
}

/// The number that a user's entry writes: white space around it is ignored, a plus
/// sign may stand in front, and at least one decimal digit and nothing else must
/// follow. An entry of any other form writes no number, nor does one whose value
/// does not fit the machine's word.
pub open spec fn number_of(entry: Seq<char>) -> Option<usize> {
    let digits = unsigned(trimmed(entry));
    if digits.len() > 0 && all_digits(digits) && decimal_of(digits) <= usize::MAX {
        Some(decimal_of(digits) as usize)
    } else {
        None
    }
}

/// The trimmed text is a stretch of the text with only white space before and
/// after it, and it neither starts nor ends with white space.
pub proof fn lemma_trimmed_is_the_core(text: Seq<char>)
    ensures
        (exists|lo: int, hi: int|
            {
                &&& 0 <= lo <= hi <= text.len()
                &&& #[trigger] text.subrange(lo, hi) == trimmed(text)
                &&& forall|i: int| 0 <= i < lo ==> is_white_space(#[trigger] text[i])
                &&& forall|i: int| hi <= i < text.len() ==> is_white_space(#[trigger] text[i])
            }),
        trimmed(text).len() > 0 ==> !is_white_space(trimmed(text).first()) && !is_white_space(
            trimmed(text).last(),
        ),
{
    let lo = lemma_trim_start(text);
    let rest = text.skip(lo);
    let keep = lemma_trim_end(rest);
    let hi = lo + keep;
    assert forall|i: int| hi <= i < text.len() implies is_white_space(#[trigger] text[i]) by {
        assert(text[i] == rest[i - lo]);
    }
    assert(text.subrange(lo, hi) == trimmed(text));
}

/// Where the white space at the start of a text ends.
proof fn lemma_trim_start(text: Seq<char>) -> (lo: int)
    ensures
        0 <= lo <= text.len(),
        trim_start(text) == text.skip(lo),
        forall|i: int| 0 <= i < lo ==> is_white_space(#[trigger] text[i]),
        lo < text.len() ==> !is_white_space(text[lo]),
    decreases text.len(),
{
    if text.len() > 0 && is_white_space(text.first()) {
        let rest = text.drop_first();
        let inner = lemma_trim_start(rest);
        assert forall|i: int| 0 <= i < inner + 1 implies is_white_space(#[trigger] text[i]) by {
            if i > 0 {
                assert(text[i] == rest[i - 1]);
            }
        }
        inner + 1
    } else {
        0
    }
}

/// Where the white space at the end of a text starts.
proof fn lemma_trim_end(text: Seq<char>) -> (hi: int)
    ensures
        0 <= hi <= text.len(),
        trim_end(text) == text.take(hi),
        forall|i: int| hi <= i < text.len() ==> is_white_space(#[trigger] text[i]),
        hi > 0 ==> !is_white_space(text[hi - 1]),
    decreases text.len(),
{
    if text.len() > 0 && is_white_space(text.last()) {
        let front = text.drop_last();
        let inner = lemma_trim_end(front);
        assert forall|i: int| inner <= i < text.len() implies is_white_space(#[trigger] text[i]) by {
            if i < front.len() {
                assert(text[i] == front[i]);
            }
        }
        inner
    } else {
        text.len() as int
    }
}

/// A run of digits writes a number at least as large as any run it starts with.
proof fn lemma_decimal_grows(digits: Seq<char>, k: int)
    requires
        0 <= k <= digits.len(),
    ensures
        decimal_of(digits.take(k)) <= decimal_of(digits),
    decreases digits.len(),
{
    if k == digits.len() {
        assert(digits.take(k) =~= digits);
    } else {
        let front = digits.drop_last();
        lemma_decimal_grows(front, k);
        assert(front.take(k) =~= digits.take(k));
    }
}

/// Whether a character counts as white space.
pub fn is_whitespace(c: char) -> (white: bool)
    ensures
        white == is_white_space(c),
{
    let code: u32 = c as u32;
    (0x09 <= code && code <= 0x0D) || code == 0x20 || code == 0x85 || code == 0xA0 || code
        == 0x1680 || (0x2000 <= code && code <= 0x200A) || code == 0x2028 || code == 0x2029 || code
        == 0x202F || code == 0x205F || code == 0x3000
}

/// The value of a character as a decimal digit, if it is one.
pub fn digit_value(c: char) -> (value: Option<usize>)
    ensures
        value == if is_digit(c) {
            Some(digit_of(c) as usize)
        } else {
            None
        },
{
    let code: u32 = c as u32;
    if 0x30 <= code && code <= 0x39 {
        Some((code - 0x30) as usize)
    } else {
        None
    }
}

/// The characters of a string, one by one.
pub fn chars_of(text: &str) -> (chars: Vec<char>)
    ensures
        chars@ == text@,
{
    let mut chars: Vec<char> = Vec::new();
    for c in it: text.chars()
        invariant
            it.seq() == text@,
            chars@ == text@.take(it.index() as int),
    {
        chars.push(c);
    }
    chars
}

/// Where the text without the white space around it starts and ends: as many
/// characters are skipped at the start as are white space there, and from there on
/// as many are kept as the trimmed text has.
pub fn trim_bounds(chars: &Vec<char>) -> (bounds: (usize, usize))
    ensures
        bounds.0 <= bounds.1 <= chars.len(),
        chars@.subrange(bounds.0 as int, bounds.1 as int) == trimmed(chars@),
        bounds.0 == chars.len() - trim_start(chars@).len(),
        bounds.1 == bounds.0 + trimmed(chars@).len(),
{
    let len = chars.len();
    let mut lo: usize = 0;
    proof {
        assert(chars@.skip(0) =~= chars@);
    }
    while lo < len && is_whitespace(chars[lo])
        invariant
            len == chars.len(),
            lo <= len,
            trim_start(chars@) == trim_start(chars@.skip(lo as int)),
        decreases len - lo,
    {
        proof {
            assert(chars@.skip(lo as int).drop_first() =~= chars@.skip(lo + 1));
        }
        lo = lo + 1;
    }
    let mut hi: usize = len;
    while hi > lo && is_whitespace(chars[hi - 1])
        invariant
            lo <= hi <= len,
            len == chars.len(),
            trimmed(chars@) == trim_end(chars@.subrange(lo as int, hi as int)),
        decreases hi - lo,
    {
        proof {
            assert(chars@.subrange(lo as int, hi as int).drop_last() =~= chars@.subrange(
                lo as int,
                hi - 1,
            ));
        }
        hi = hi - 1;
    }
    (lo, hi)
}

/// Reads the number that a user's entry writes.
pub fn parse_number(entry: &str) -> (number: Option<usize>)
    ensures
        number == number_of(entry@),
{
    let chars = chars_of(entry);
    let (lo, hi) = trim_bounds(&chars);
    let start: usize = if lo < hi && chars[lo] == '+' {
        lo + 1
    } else {
        lo
    };
    let ghost digits = chars@.subrange(start as int, hi as int);
    if start == hi {
        return None;
    }
    let mut value: usize = 0;
    let mut i: usize = start;
    while i < hi
        invariant
            start <= i <= hi <= chars.len(),
            digits == chars@.subrange(start as int, hi as int),
            digits == unsigned(trimmed(entry@)),
            all_digits(digits.take(i - start)),
            value == decimal_of(digits.take(i - start)),
        decreases hi - i,
    {
        let digit = match digit_value(chars[i]) {
            Some(d) => d,
            None => {
                proof {
                    assert(!is_digit(digits[i - start]));
                }
                return None;
            },
        };
        proof {
            let longer = digits.take(i - start + 1);
            assert(longer.drop_last() =~= digits.take(i - start));
            assert(decimal_of(longer) == value * 10 + digit);
            lemma_decimal_grows(digits, i - start + 1);
        }
        let tenfold = match value.checked_mul(10) {
            Some(t) => t,
            None => {
                return None;
            },
        };
        value = match tenfold.checked_add(digit) {
            Some(v) => v,
            None => {
                return None;
            },
        };
        i = i + 1;
    }
    proof {
        assert(digits.take(i - start) =~= digits);
    }
    Some(value)
}

} // verus!
