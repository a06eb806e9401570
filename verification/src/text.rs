//! Character-level helpers shared by the line classifier and the opcode
//! table.

use vstd::prelude::*;

verus! {

/// The characters of `s`, in order.
pub fn chars_of(s: &str) -> (chars: Vec<char>)
    ensures
        chars@ == s@,
{
    let mut chars: Vec<char> = Vec::new();
    for c in it: s.chars()
        invariant
            it.seq() == s@,
            chars@ == s@.take(it.index()),
    {
        chars.push(c);
    }
    chars
}

/// Whether `chars` is exactly the text of `word`.
pub fn spells(chars: &Vec<char>, word: &str) -> (result: bool)
    ensures
        result == (chars@ == word@),
{
    let mut i: usize = 0;
    for c in it: word.chars()
        invariant
            it.seq() == word@,
            i == it.index(),
            i <= chars.len(),
            chars@.take(i as int) == word@.take(i as int),
    {
        if i >= chars.len() || chars[i] != c {
            return false;
        }
        i = i + 1;
    }
    assert(word@.take(i as int) == word@);
    assert(i == chars.len() ==> chars@.take(i as int) == chars@);
    i == chars.len()
}

/// Where the token that starts at `from` ends: the index of the first space
/// at or after `from`, or the length of `text` if there is none.
pub open spec fn token_end(text: Seq<char>, from: int) -> int
    decreases text.len() - from,
{
    if 0 <= from < text.len() && text[from] != ' ' {
        token_end(text, from + 1)
    } else {
        from
    }
}

/// `token_end` names the one position that closes the token: nothing
/// between `from` and it is a space, and it is a space or the end of the
/// text.
pub proof fn lemma_token_end(text: Seq<char>, from: int)
    requires
        0 <= from <= text.len(),
    ensures
        from <= token_end(text, from) <= text.len(),
        forall|i: int| from <= i < token_end(text, from) ==> text[i] != ' ',
        token_end(text, from) < text.len() ==> text[token_end(text, from)] == ' ',
    decreases text.len() - from,
{
    if from < text.len() && text[from] != ' ' {
        lemma_token_end(text, from + 1);
    }
}

/// Finds the end of the token that starts at `from`.
pub fn find_token_end(chars: &Vec<char>, from: usize) -> (end: usize)
    ensures
        end == token_end(chars@, from as int),
        from <= chars.len() ==> from <= end <= chars.len(),
{
    let mut end: usize = from;
    while end < chars.len() && chars[end] != ' '
        invariant
            from <= end,
            from <= chars.len() ==> end <= chars.len(),
            token_end(chars@, from as int) == token_end(chars@, end as int),
        decreases chars.len() - end,
    {
        end = end + 1;
    }
    end
}

/// Whether `c` is one of the ten ASCII decimal digits.
pub open spec fn is_digit(c: char) -> bool {
    '0' <= c && c <= '9'
}

/// The number that the digit `c` stands for.
pub open spec fn digit_value(c: char) -> int {
    c as int - '0' as int
}

/// Whether `text` consists of decimal digits only.
pub open spec fn all_digits(text: Seq<char>) -> bool {
    forall|i: int| 0 <= i < text.len() ==> is_digit(#[trigger] text[i])
}

/// The number written by the digits of `text`, most significant first.
pub open spec fn digits_value(text: Seq<char>) -> int
    decreases text.len(),
{
    if text.len() == 0 {
        0
    } else {
        10 * digits_value(text.drop_last()) + digit_value(text.last())
    }
}

/// The signed sixteen-bit integer that `text` writes in decimal: an optional
/// `+` or `-`, then one or more digits, the whole within the range of `i16`.
/// Any other text writes no integer.
pub open spec fn decimal_i16(text: Seq<char>) -> Option<i16> {
    let negative = text.len() > 0 && text[0] == '-';
    let signed = text.len() > 0 && (text[0] == '-' || text[0] == '+');
    let digits = if signed {
        text.skip(1)
    } else {
        text
    };
    let value = if negative {
        -digits_value(digits)
    } else {
        digits_value(digits)
    };
    if digits.len() > 0 && all_digits(digits) && i16::MIN <= value <= i16::MAX {
        Some(value as i16)
    } else {
        None
    }
}

/// A number written in digits is at least the number written by any of its
/// prefixes, and never negative.
proof fn lemma_digits_value_grows(text: Seq<char>, k: int)
    requires
        0 <= k <= text.len(),
        all_digits(text),
    ensures
        0 <= digits_value(text.take(k)) <= digits_value(text),
    decreases text.len(),
{
    if k == text.len() {
        assert(text.take(k) == text);
        if k > 0 {
            lemma_digits_value_grows(text.drop_last(), k - 1);
        }
    } else {
        assert(text.drop_last().take(k) == text.take(k));
        lemma_digits_value_grows(text.drop_last(), k);
    }
}

/// Reads the characters of `chars` from `start` on as a number written in
/// digits, up to 32768, the largest magnitude of an `i16`.
fn parse_magnitude(chars: &Vec<char>, start: usize) -> (result: Option<i32>)
    requires
        start <= chars.len(),
    ensures
        result == (if all_digits(chars@.skip(start as int)) && digits_value(
            chars@.skip(start as int),
        ) <= 0x8000 {
            Some(digits_value(chars@.skip(start as int)) as i32)
        } else {
            None
        }),
{
    let ghost digits = chars@.skip(start as int);
    let mut magnitude: i32 = 0;
    let mut i: usize = start;
    while i < chars.len()
        invariant
            start <= i <= chars.len(),
            digits == chars@.skip(start as int),
            all_digits(digits.take(i - start)),
            magnitude == digits_value(digits.take(i - start)),
            0 <= magnitude <= 0x8000,
        decreases chars.len() - i,
    {
        let c = chars[i];
        proof {
            assert(digits.take(i + 1 - start).drop_last() == digits.take(i - start));
            assert(digits[i - start] == c);
        }
        if !('0' <= c && c <= '9') {
            return None;
        }
        let digit: i32 = (c as u32 - '0' as u32) as i32;
        magnitude = magnitude * 10 + digit;
        if magnitude > 0x8000 {
            proof {
                if all_digits(digits) {
                    lemma_digits_value_grows(digits, i + 1 - start);
                }
            }
            return None;
        }
        i = i + 1;
    }
    assert(digits.take(chars.len() - start) == digits);
    Some(magnitude)
}

/// Reads `chars` as a signed sixteen-bit decimal integer.
pub fn parse_decimal_i16(chars: &Vec<char>) -> (result: Option<i16>)
    ensures
        result == decimal_i16(chars@),
{
    if chars.len() == 0 {
        return None;
    }
    let negative = chars[0] == '-';
    let start: usize = if negative || chars[0] == '+' {
        1
    } else {
        0
    };
    if start == chars.len() {
        return None;
    }
    proof {
        assert(chars@.skip(0) == chars@);
        if all_digits(chars@.skip(start as int)) {
            lemma_digits_value_grows(chars@.skip(start as int), 0);
        }
    }
    match parse_magnitude(chars, start) {
        Some(magnitude) => if negative {
            Some((-magnitude) as i16)
        } else if magnitude <= 0x7fff {
            Some(magnitude as i16)
        } else {
            None
        },
        None => None,
    }
}

} // verus!
