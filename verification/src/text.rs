//! Small pieces of text.

use vstd::prelude::*;
use vstd::string::{StrSliceExecFns, StringExecFns};

verus! {

/// The character of a decimal digit.
pub open spec fn digit_char(digit: nat) -> char {
    if digit == 0 {
        '0'
    } else if digit == 1 {
        '1'
    } else if digit == 2 {
        '2'
    } else if digit == 3 {
        '3'
    } else if digit == 4 {
        '4'
    } else if digit == 5 {
        '5'
    } else if digit == 6 {
        '6'
    } else if digit == 7 {
        '7'
    } else if digit == 8 {
        '8'
    } else {
        '9'
    }
}

/// A number in decimal notation.
pub open spec fn decimal(number: nat) -> Seq<char>
    decreases number,
{
    if number < 10 {
        seq![digit_char(number)]
    } else {
        decimal(number / 10).push(digit_char(number % 10))
    }
}

fn digit_text(digit: u64) -> (text: &'static str)
    requires
        digit < 10,
    ensures
        text@ == seq![digit_char(digit as nat)],
{
    proof {
        reveal_strlit("0");
        reveal_strlit("1");
        reveal_strlit("2");
        reveal_strlit("3");
        reveal_strlit("4");
        reveal_strlit("5");
        reveal_strlit("6");
        reveal_strlit("7");
        reveal_strlit("8");
        reveal_strlit("9");
    }
    let text = if digit == 0 {
        "0"
    } else if digit == 1 {
        "1"
    } else if digit == 2 {
        "2"
    } else if digit == 3 {
        "3"
    } else if digit == 4 {
        "4"
    } else if digit == 5 {
        "5"
    } else if digit == 6 {
        "6"
    } else if digit == 7 {
        "7"
    } else if digit == 8 {
        "8"
    } else {
        "9"
    };
    assert(text@ =~= seq![digit_char(digit as nat)]);
    text
}

/// Writes a number in decimal notation.
pub fn decimal_text(number: u64) -> (text: String)
    ensures
        text@ == decimal(number as nat),
    decreases number,
{
    if number < 10 {
        digit_text(number).to_owned()
    } else {
        let mut text = decimal_text(number / 10);
        text.append(digit_text(number % 10));
        assert(text@ =~= decimal(number as nat));
        text
    }
}

/// Joins two texts.
pub fn join2(first: &str, second: &str) -> (text: String)
    ensures
        text@ == first@ + second@,
{
    let mut text = first.to_owned();
    text.append(second);
    text
}

/// Joins three texts.
pub fn join3(first: &str, second: &str, third: &str) -> (text: String)
    ensures
        text@ == first@ + second@ + third@,
{
    let mut text = first.to_owned();
    text.append(second);
    text.append(third);
    text
}

/// An optional text as its characters.
pub open spec fn text_view(text: Option<String>) -> Option<Seq<char>> {
    match text {
        Some(text) => Some(text@),
        None => None,
    }
}

/// Copies an optional text.
pub fn copy_text(text: &Option<String>) -> (copy: Option<String>)
    ensures
        copy == *text,
{
    match text {
        Some(text) => Some(text.clone()),
        None => None,
    }
}

/// What follows the last `separator`; the whole text if there is none.
pub open spec fn after_last(text: Seq<char>, separator: char) -> Seq<char>
    decreases text.len(),
{
    if text.len() == 0 || text.last() == separator {
        Seq::empty()
    } else {
        after_last(text.drop_last(), separator).push(text.last())
    }
}

/// Dropping the end of a text that holds no separator.
proof fn lemma_after_last(text: Seq<char>, separator: char, k: int)
    requires
        0 <= k <= text.len(),
        forall|i: int| k <= i < text.len() ==> #[trigger] text[i] != separator,
        k == 0 || text[k - 1] == separator,
    ensures
        after_last(text, separator) == text.skip(k),
    decreases text.len(),
{
    if k == text.len() {
        assert(text.skip(k) =~= Seq::<char>::empty());
    } else {
        let shorter = text.drop_last();
        assert forall|i: int| k <= i < shorter.len() implies #[trigger] shorter[i] != separator by {
            assert(text[i] != separator);
        }
        assert(text[text.len() - 1] != separator);
        lemma_after_last(shorter, separator, k);
        assert(shorter.skip(k).push(text.last()) =~= text.skip(k));
    }
}

/// What follows the last `separator` of a text is free of separators, and what
/// stands before it, if anything, ends with one.
pub proof fn law_after_last_is_the_last_part(text: Seq<char>, separator: char)
    ensures
        after_last(text, separator).len() <= text.len(),
        after_last(text, separator) == text.skip(text.len() - after_last(text, separator).len()),
        !after_last(text, separator).contains(separator),
        after_last(text, separator).len() < text.len() ==> text[text.len() - after_last(
            text,
            separator,
        ).len() - 1] == separator,
    decreases text.len(),
{
    let part = after_last(text, separator);
    if text.len() == 0 || text.last() == separator {
        assert(text.skip(text.len() as int) =~= Seq::<char>::empty());
    } else {
        let shorter = text.drop_last();
        let inner = after_last(shorter, separator);
        law_after_last_is_the_last_part(shorter, separator);
        assert(part =~= text.skip(text.len() - part.len()));
        assert forall|i: int| 0 <= i < part.len() implies part[i] != separator by {
            if i < inner.len() {
                assert(part[i] == inner[i]);
                assert(inner.contains(inner[i]));
            }
        }
    }
}

/// What follows the last `separator`.
pub fn last_part(text: &str, separator: char) -> (part: String)
    ensures
        part@ == after_last(text@, separator),
{
    let len: usize = text.unicode_len();
    let mut k: usize = len;
    while k > 0 && text.get_char(k - 1) != separator
        invariant
            k <= len,
            len == text@.len(),
            forall|i: int| k <= i < len ==> #[trigger] text@[i] != separator,
        decreases k,
    {
        k = k - 1;
    }
    proof {
        lemma_after_last(text@, separator, k as int);
    }
    text.substring_char(k, len).to_owned()
}

/// Some stretch of the text is the pattern.
pub open spec fn contains_text(text: Seq<char>, pattern: Seq<char>) -> bool {
    exists|i: int|
        0 <= i <= text.len() - pattern.len() && #[trigger] text.subrange(i, i + pattern.len())
            == pattern
}

/// The characters of a text.
fn chars_of(text: &str) -> (chars: Vec<char>)
    ensures
        chars@ == text@,
{
    let mut chars: Vec<char> = Vec::new();
    for c in iter: text.chars()
        invariant
            iter.seq() == text@,
            chars@ == text@.take(iter.index() as int),
    {
        chars.push(c);
        assert(chars@ =~= text@.take(iter.index() + 1));
    }
    assert(text@.take(text@.len() as int) =~= text@);
    chars
}

/// Whether the pattern stands in the text at `start`.
fn stands_at(text: &Vec<char>, pattern: &Vec<char>, start: usize) -> (stands: bool)
    requires
        start + pattern.len() <= text.len(),
    ensures
        stands == (text@.subrange(start as int, start + pattern@.len()) == pattern@),
{
    let mut i: usize = 0;
    while i < pattern.len()
        invariant
            start + pattern.len() <= text.len(),
            i <= pattern.len(),
            forall|j: int| 0 <= j < i ==> text@[start + j] == #[trigger] pattern@[j],
        decreases pattern.len() - i,
    {
        if text[start + i] != pattern[i] {
            assert(text@.subrange(start as int, start + pattern@.len())[i as int] != pattern@[i as int]);
            return false;
        }
        i = i + 1;
    }
    assert(text@.subrange(start as int, start + pattern@.len()) =~= pattern@);
    true
}

/// Whether some stretch of the text is the pattern.
pub fn text_contains(text: &str, pattern: &str) -> (contains: bool)
    ensures
        contains == contains_text(text@, pattern@),
{
    let text_chars = chars_of(text);
    let pattern_chars = chars_of(pattern);
    if pattern_chars.len() > text_chars.len() {
        return false;
    }
    let last: usize = text_chars.len() - pattern_chars.len();
    let mut start: usize = 0;
    while start <= last
        invariant
            text_chars@ == text@,
            pattern_chars@ == pattern@,
            pattern@.len() <= text@.len(),
            last == text@.len() - pattern@.len(),
            start <= last + 1,
            forall|i: int|
                0 <= i < start ==> #[trigger] text@.subrange(i, i + pattern@.len()) != pattern@,
        decreases last + 1 - start,
    {
        if stands_at(&text_chars, &pattern_chars, start) {
            return true;
        }
        if start == last {
            return false;
        }
        start = start + 1;
    }
    false
}

/// The number that a run of digits denotes.
pub open spec fn digits_value(digits: Seq<char>) -> int
    decreases digits.len(),
{
    if digits.len() == 0 {
        0
    } else {
        10 * digits_value(digits.drop_last()) + (digits.last() as int - '0' as int)
    }
}

/// Decimal notation reads back as the number: it holds digits only, and begins with a
/// zero only if it is that zero.
pub proof fn law_decimal_reads_back(number: nat)
    ensures
        decimal(number).len() > 0,
        forall|i: int| 0 <= i < decimal(number).len() ==> '0' <= #[trigger] decimal(number)[i] <= '9',
        digits_value(decimal(number)) == number,
        decimal(number)[0] == '0' ==> number == 0,
        number < 10 ==> decimal(number).len() == 1,
    decreases number,
{
    let digits = decimal(number);
    reveal_with_fuel(digits_value, 2);
    if number < 10 {
        assert(digits.drop_last() =~= Seq::<char>::empty());
    } else {
        law_decimal_reads_back(number / 10);
        assert(digits.drop_last() =~= decimal(number / 10));
        assert(digits[0] == decimal(number / 10)[0]);
    }
}

/// A text contains a pattern exactly if it is something, the pattern, and something.
pub proof fn law_contains_means_split(text: Seq<char>, pattern: Seq<char>)
    ensures
        contains_text(text, pattern) <==> exists|before: Seq<char>, after: Seq<char>|
            text == #[trigger] (before + pattern + after),
{
    if contains_text(text, pattern) {
        let i = choose|i: int|
            0 <= i <= text.len() - pattern.len() && #[trigger] text.subrange(i, i + pattern.len())
                == pattern;
        let before = text.take(i);
        let after = text.skip(i + pattern.len());
        assert(text =~= before + text.subrange(i, i + pattern.len()) + after);
    }
    assert forall|before: Seq<char>, after: Seq<char>|
        text == #[trigger] (before + pattern + after) implies contains_text(text, pattern) by {
        let i = before.len() as int;
        assert(text.subrange(i, i + pattern.len()) =~= pattern);
    }
}

/// An optional text is viewed as its characters.
pub proof fn law_text_view(text: String)
    ensures
        text_view(Some(text)) == Some(text@),
        text_view(None) is None,
{
}

} // verus!
