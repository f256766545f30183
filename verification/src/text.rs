//! Cutting text: prefixes, separators, surrounding white space and decimal numbers.

use vstd::prelude::*;
use vstd::string::*;

verus! {

/// What follows `prefix` in `text`, if `text` starts with it.
pub open spec fn after_prefix(text: Seq<char>, prefix: Seq<char>) -> Option<Seq<char>> {
    if prefix.is_prefix_of(text) {
        Some(text.skip(prefix.len() as int))
    } else {
        None
    }
}

/// What precedes `end` in `text`, if `text` ends with it.
pub open spec fn before_last(text: Seq<char>, end: char) -> Option<Seq<char>> {
    if text.len() > 0 && text.last() == end {
        Some(text.drop_last())
    } else {
        None
    }
}

/// What precedes and what follows the last `separator` in `text`.
pub open spec fn split_at_last(text: Seq<char>, separator: char) -> Option<(Seq<char>, Seq<char>)>
    decreases text.len(),
{
    if text.len() == 0 {
        None
    } else if text.last() == separator {
        Some((text.drop_last(), Seq::empty()))
    } else {
        match split_at_last(text.drop_last(), separator) {
            None => None,
            Some((before, after)) => Some((before, after.push(text.last()))),
        }
    }
}

/// The pieces of `text` between the separators; one piece if there is none.
pub open spec fn split_all(text: Seq<char>, separator: char) -> Seq<Seq<char>>
    decreases text.len(),
{
    if text.len() == 0 {
        seq![text]
    } else {
        let pieces = split_all(text.drop_last(), separator);
        if text.last() == separator {
            pieces.push(Seq::empty())
        } else {
            pieces.drop_last().push(pieces.last().push(text.last()))
        }
    }
}

/// Whether `c` has the White_Space property of Unicode.
pub open spec fn is_white_space(c: char) -> bool {
    ||| '\u{9}' <= c <= '\u{d}'
    ||| c == '\u{20}'
    ||| c == '\u{85}'
    ||| c == '\u{a0}'
    ||| c == '\u{1680}'
    ||| '\u{2000}' <= c <= '\u{200a}'
    ||| c == '\u{2028}'
    ||| c == '\u{2029}'
    ||| c == '\u{202f}'
    ||| c == '\u{205f}'
    ||| c == '\u{3000}'
}

/// `text` without the white space at its end.
pub open spec fn trimmed_end(text: Seq<char>) -> Seq<char>
    decreases text.len(),
{
    if text.len() > 0 && is_white_space(text.last()) {
        trimmed_end(text.drop_last())
    } else {
        text
    }
}

/// `text` without the white space at either end.
pub open spec fn trimmed(text: Seq<char>) -> Seq<char>
    decreases text.len(),
{
    if text.len() > 0 && is_white_space(text[0]) {
        trimmed(text.drop_first())
    } else {
        trimmed_end(text)
    }
}

/// Whether `c` is a decimal digit.
pub open spec fn is_digit(c: char) -> bool {
    '0' <= c <= '9'
}

/// Whether `text` holds decimal digits only.
pub open spec fn all_digits(text: Seq<char>) -> bool {
    forall|i: int| 0 <= i < text.len() ==> #[trigger] is_digit(text[i])
}

/// The number that decimal digits spell.
pub open spec fn decimal_value(digits: Seq<char>) -> nat
    decreases digits.len(),
{
    if digits.len() == 0 {
        0
    } else {
        (decimal_value(digits.drop_last()) * 10 + (digits.last() as int - '0' as int)) as nat
    }
}

/// The 16-bit number that `text` spells: digits, after a plus sign or not.
pub open spec fn decimal_u16(text: Seq<char>) -> Option<u16> {
    let digits = if text.len() > 0 && text[0] == '+' {
        text.drop_first()
    } else {
        text
    };
    if digits.len() > 0 && all_digits(digits) && decimal_value(digits) <= u16::MAX {
        Some(decimal_value(digits) as u16)
    } else {
        None
    }
}

/// The characters of `text`.
pub fn characters(text: &str) -> (res: Vec<char>)
    ensures
        res@ == text@,
{
    let mut res: Vec<char> = Vec::new();
    for c in it: text.chars()
        invariant
            res@ == it.seq().take(it.index()),
            it.seq() == text@,
    {
        res.push(c);
    }
    res
}

/// Whether two texts are the same.
pub fn same_text(text: &str, other: &str) -> (res: bool)
    ensures
        res == (text@ == other@),
{
    text.to_owned() == other.to_owned()
}

/// What follows `prefix` in `text`, if `text` starts with it.
pub fn strip_prefix<'a>(text: &'a str, prefix: &str) -> (res: Option<&'a str>)
    ensures
        res is Some <==> after_prefix(text@, prefix@) is Some,
        res matches Some(rest) ==> after_prefix(text@, prefix@) == Some(rest@),
{
    let length: usize = text.unicode_len();
    let count: usize = prefix.unicode_len();
    if length < count {
        return None;
    }
    let front = text.substring_char(0, count);
    assert(front@ =~= text@.take(count as int));
    if same_text(front, prefix) {
        assert(prefix@.is_prefix_of(text@));
        let rest = text.substring_char(count, length);
        assert(rest@ =~= text@.skip(count as int));
        Some(rest)
    } else {
        assert(prefix@.is_prefix_of(text@) ==> front@ =~= prefix@);
        None
    }
}

/// What precedes `end` in `text`, if `text` ends with it.
pub fn strip_suffix(text: &str, end: char) -> (res: Option<&str>)
    ensures
        res is Some <==> before_last(text@, end) is Some,
        res matches Some(rest) ==> before_last(text@, end) == Some(rest@),
{
    let length: usize = text.unicode_len();
    if length > 0 && text.get_char(length - 1) == end {
        let rest = text.substring_char(0, length - 1);
        assert(rest@ =~= text@.drop_last());
        Some(rest)
    } else {
        None
    }
}

/// Whether `c` occurs in `text`.
pub fn contains_char(text: &str, c: char) -> (res: bool)
    ensures
        res == text@.contains(c),
{
    let chars = characters(text);
    let mut index: usize = 0;
    while index < chars.len()
        invariant
            index <= chars@.len(),
            chars@ == text@,
            forall|i: int| 0 <= i < index ==> chars@[i] != c,
        decreases chars@.len() - index,
    {
        if chars[index] == c {
            assert(text@[index as int] == c);
            return true;
        }
        index = index + 1;
    }
    false
}

/// A text is split at `at` if nothing after it is the separator.
pub proof fn lemma_split_at_last(text: Seq<char>, separator: char, at: int)
    requires
        0 <= at < text.len(),
        text[at] == separator,
        forall|i: int| at < i < text.len() ==> text[i] != separator,
    ensures
        split_at_last(text, separator) == Some((text.take(at), text.skip(at + 1))),
    decreases text.len(),
{
    if at == text.len() - 1 {
        assert(text.take(at) =~= text.drop_last());
        assert(text.skip(at + 1) =~= Seq::<char>::empty());
    } else {
        lemma_split_at_last(text.drop_last(), separator, at);
        assert(text.drop_last().take(at) =~= text.take(at));
        assert(text.drop_last().skip(at + 1).push(text.last()) =~= text.skip(at + 1));
    }
}

/// What a text is split into joins up to it again, and what follows the separator holds no
/// other.
pub proof fn lemma_split_rejoins(text: Seq<char>, separator: char)
    ensures
        split_at_last(text, separator) matches Some((before, after)) ==> before + seq![separator]
            + after == text && !after.contains(separator),
    decreases text.len(),
{
    if text.len() > 0 {
        if text.last() == separator {
            assert(text.drop_last() + seq![separator] + Seq::<char>::empty() =~= text);
        } else {
            lemma_split_rejoins(text.drop_last(), separator);
            if let Some((before, after)) = split_at_last(text.drop_last(), separator) {
                assert(before + seq![separator] + after.push(text.last()) =~= (before
                    + seq![separator] + after).push(text.last()));
                assert(text.drop_last().push(text.last()) =~= text);
                assert forall|i: int| 0 <= i < after.len() + 1 implies after.push(text.last())[i]
                    != separator by {
                    if i < after.len() {
                        assert(after.contains(after[i]));
                    }
                }
            }
        }
    }
}

proof fn lemma_no_split(text: Seq<char>, separator: char)
    requires
        forall|i: int| 0 <= i < text.len() ==> text[i] != separator,
    ensures
        split_at_last(text, separator) is None,
    decreases text.len(),
{
    if text.len() > 0 {
        lemma_no_split(text.drop_last(), separator);
    }
}

/// What precedes and what follows the last `separator` in `text`.
pub fn rsplit_once(text: &str, separator: char) -> (res: Option<(&str, &str)>)
    ensures
        res is Some <==> split_at_last(text@, separator) is Some,
        res matches Some((before, after)) ==> split_at_last(text@, separator) == Some(
            (before@, after@),
        ),
{
    let chars = characters(text);
    let length: usize = chars.len();
    let mut index: usize = length;
    while index > 0
        invariant
            index <= length,
            length == text@.len(),
            chars@ == text@,
            forall|i: int| index <= i < length ==> text@[i] != separator,
        decreases index,
    {
        if chars[index - 1] == separator {
            let before = text.substring_char(0, index - 1);
            let after = text.substring_char(index, length);
            proof {
                lemma_split_at_last(text@, separator, index - 1);
                assert(before@ =~= text@.take(index - 1));
                assert(after@ =~= text@.skip(index as int));
            }
            return Some((before, after));
        }
        index = index - 1;
    }
    proof {
        lemma_no_split(text@, separator);
    }
    None
}

/// The pieces of `text` between the separators; one piece if there is none.
pub fn split<'a>(text: &'a str, separator: char) -> (res: Vec<&'a str>)
    ensures
        res@.len() == split_all(text@, separator).len(),
        forall|i: int|
            0 <= i < res@.len() ==> (#[trigger] res@[i])@ == split_all(text@, separator)[i],
{
    let chars = characters(text);
    let length: usize = chars.len();
    let mut res: Vec<&'a str> = Vec::new();
    let mut start: usize = 0;
    let mut index: usize = 0;
    assert(text@.take(0) =~= Seq::<char>::empty());
    while index < length
        invariant
            start <= index <= length,
            length == text@.len(),
            chars@ == text@,
            split_all(text@.take(index as int), separator).len() == res@.len() + 1,
            forall|i: int|
                0 <= i < res@.len() ==> (#[trigger] res@[i])@ == split_all(
                    text@.take(index as int),
                    separator,
                )[i],
            split_all(text@.take(index as int), separator).last() == text@.subrange(
                start as int,
                index as int,
            ),
        decreases length - index,
    {
        proof {
            assert(text@.take(index + 1).drop_last() =~= text@.take(index as int));
            assert(text@.take(index + 1).last() == text@[index as int]);
            assert(text@.subrange(start as int, index as int).push(text@[index as int])
                =~= text@.subrange(start as int, index + 1));
            assert(text@.subrange(index + 1, index + 1) =~= Seq::<char>::empty());
        }
        if chars[index] == separator {
            res.push(text.substring_char(start, index));
            start = index + 1;
        }
        index = index + 1;
    }
    assert(text@.take(length as int) =~= text@);
    res.push(text.substring_char(start, length));
    res
}

/// Whether `c` has the White_Space property of Unicode.
pub fn white_space(c: char) -> (res: bool)
    ensures
        res == is_white_space(c),
{
    ('\u{9}' <= c && c <= '\u{d}') || c == '\u{20}' || c == '\u{85}' || c == '\u{a0}' || c
        == '\u{1680}' || ('\u{2000}' <= c && c <= '\u{200a}') || c == '\u{2028}' || c
        == '\u{2029}' || c == '\u{202f}' || c == '\u{205f}' || c == '\u{3000}'
}

/// `text` without the white space at either end.
pub fn trim(text: &str) -> (res: &str)
    ensures
        res@ == trimmed(text@),
{
    let chars = characters(text);
    let length: usize = chars.len();
    let mut start: usize = 0;
    assert(text@.skip(0) =~= text@);
    while start < length && white_space(chars[start])
        invariant
            start <= length,
            length == text@.len(),
            chars@ == text@,
            trimmed(text@.skip(start as int)) == trimmed(text@),
        decreases length - start,
    {
        assert(text@.skip(start as int).drop_first() =~= text@.skip(start + 1));
        start = start + 1;
    }
    let mut end: usize = length;
    assert(text@.subrange(start as int, length as int) =~= text@.skip(start as int));
    while start < end && white_space(chars[end - 1])
        invariant
            start <= end <= length,
            length == text@.len(),
            chars@ == text@,
            trimmed_end(text@.subrange(start as int, end as int)) == trimmed(text@),
        decreases end,
    {
        assert(text@.subrange(start as int, end as int).drop_last() =~= text@.subrange(
            start as int,
            end - 1,
        ));
        end = end - 1;
    }
    text.substring_char(start, end)
}

/// What further digits add can only make the number larger.
proof fn lemma_decimal_grows(digits: Seq<char>, count: int)
    requires
        0 <= count <= digits.len(),
        all_digits(digits),
    ensures
        decimal_value(digits.take(count)) <= decimal_value(digits),
    decreases digits.len() - count,
{
    if count == digits.len() {
        assert(digits.take(count) =~= digits);
    } else {
        assert(digits.take(count + 1).drop_last() =~= digits.take(count));
        assert(is_digit(digits[count]));
        lemma_decimal_grows(digits, count + 1);
    }
}

/// Reads a 16-bit number: digits, after a plus sign or not.
pub fn parse_u16(text: &str) -> (res: Option<u16>)
    ensures
        res == decimal_u16(text@),
{
    let chars = characters(text);
    let start: usize = if chars.len() > 0 && chars[0] == '+' {
        1
    } else {
        0
    };
    let ghost digits = text@.skip(start as int);
    proof {
        if start == 1 {
            assert(digits =~= text@.drop_first());
        } else {
            assert(digits =~= text@);
        }
    }
    if chars.len() == start {
        return None;
    }
    let mut value: u32 = 0;
    let mut index: usize = start;
    assert(digits.take(0) =~= Seq::<char>::empty());
    while index < chars.len()
        invariant
            start <= index <= chars@.len(),
            chars@ == text@,
            digits == text@.skip(start as int),
            forall|i: int| 0 <= i < index - start ==> #[trigger] is_digit(digits[i]),
            value == decimal_value(digits.take(index - start)),
            value <= u16::MAX,
            digits.len() > 0,
            decimal_u16(text@) == (if all_digits(digits) && decimal_value(digits) <= u16::MAX {
                Some(decimal_value(digits) as u16)
            } else {
                None
            }),
        decreases chars@.len() - index,
    {
        let c = chars[index];
        assert(digits[index - start] == c);
        assert(all_digits(digits) ==> is_digit(digits[index - start]));
        if c < '0' || '9' < c {
            return None;
        }
        value = value * 10 + (c as u32 - '0' as u32);
        assert(digits.take(index + 1 - start).drop_last() =~= digits.take(index - start));
        if value > u16::MAX as u32 {
            proof {
                if all_digits(digits) {
                    lemma_decimal_grows(digits, index + 1 - start);
                }
            }
            return None;
        }
        index = index + 1;
    }
    assert(digits.take(index - start) =~= digits);
    Some(value as u16)
}

/// White space at the end makes no difference to a trimmed text.
pub proof fn trimming_ignores_the_end(text: Seq<char>, c: char)
    requires
        is_white_space(c),
    ensures
        trimmed(text.push(c)) == trimmed(text),
    decreases text.len(),
{
    assert(text.push(c).drop_last() =~= text);
    if text.len() == 0 {
        assert(text.push(c).drop_first() =~= text);
    } else if is_white_space(text[0]) {
        trimming_ignores_the_end(text.drop_first(), c);
        assert(text.push(c).drop_first() =~= text.drop_first().push(c));
    }
}

/// What is cut off behind a prefix is what was put behind it, and nothing is cut off a text
/// that does not start with the prefix.
pub proof fn prefixes_are_cut_exactly(text: Seq<char>, prefix: Seq<char>)
    ensures
        after_prefix(prefix + text, prefix) == Some(text),
        after_prefix(text, prefix) matches Some(rest) ==> text == prefix + rest,
        after_prefix(text, prefix) is None ==> forall|rest: Seq<char>| text != #[trigger] (prefix
            + rest),
{
    assert(prefix.is_prefix_of(prefix + text));
    assert((prefix + text).skip(prefix.len() as int) =~= text);
    if prefix.is_prefix_of(text) {
        assert(text =~= prefix + text.skip(prefix.len() as int));
    } else {
        assert forall|rest: Seq<char>| text != #[trigger] (prefix + rest) by {
            assert(prefix.is_prefix_of(prefix + rest));
        }
    }
}

/// What is cut off before a last character is what was put before it, and nothing is cut off
/// a text that ends otherwise.
pub proof fn endings_are_cut_exactly(text: Seq<char>, end: char)
    ensures
        before_last(text.push(end), end) == Some(text),
        before_last(text, end) matches Some(rest) ==> text == rest.push(end),
        before_last(text, end) is None ==> forall|rest: Seq<char>| text != #[trigger] rest.push(
            end,
        ),
{
    assert(text.push(end).drop_last() =~= text);
    if text.len() > 0 && text.last() == end {
        assert(text =~= text.drop_last().push(end));
    } else {
        assert forall|rest: Seq<char>| text != #[trigger] rest.push(end) by {
            assert(rest.push(end).last() == end);
        }
    }
}

/// A text is split at its last separator, whatever comes before it; a text without a separator
/// is not split.
pub proof fn the_last_separator_splits(before: Seq<char>, after: Seq<char>, separator: char)
    requires
        !after.contains(separator),
    ensures
        split_at_last(before + seq![separator] + after, separator) == Some((before, after)),
        split_at_last(after, separator) is None,
{
    let text = before + seq![separator] + after;
    let at = before.len() as int;
    assert forall|i: int| at < i < text.len() implies text[i] != separator by {
        assert(after.contains(after[i - at - 1]));
    }
    lemma_split_at_last(text, separator, at);
    assert(text.take(at) =~= before);
    assert(text.skip(at + 1) =~= after);
    assert forall|i: int| 0 <= i < after.len() implies after[i] != separator by {
        assert(after.contains(after[i]));
    }
    lemma_no_split(after, separator);
}

/// A separator and a piece behind a text add that piece to the pieces of the text, and a text
/// without a separator is one piece.
pub proof fn separators_end_pieces(text: Seq<char>, piece: Seq<char>, separator: char)
    requires
        !piece.contains(separator),
    ensures
        split_all(piece, separator) == seq![piece],
        split_all(text + seq![separator] + piece, separator) == split_all(text, separator).push(
            piece,
        ),
    decreases piece.len(),
{
    let whole = text + seq![separator] + piece;
    if piece.len() == 0 {
        assert(whole.drop_last() =~= text);
        assert(piece =~= Seq::<char>::empty());
    } else {
        let rest = piece.drop_last();
        assert(piece.contains(piece.last()));
        assert forall|i: int| 0 <= i < rest.len() implies rest[i] != separator by {
            assert(piece.contains(piece[i]));
        }
        separators_end_pieces(text, rest, separator);
        assert(whole.drop_last() =~= text + seq![separator] + rest);
        assert(rest.push(piece.last()) =~= piece);
        assert(seq![rest].drop_last().push(piece) =~= seq![piece]);
        assert(split_all(text, separator).push(rest).drop_last() =~= split_all(text, separator));
    }
}

/// Pieces with a separator between each two.
pub open spec fn joined_with(pieces: Seq<Seq<char>>, separator: char) -> Seq<char>
    decreases pieces.len(),
{
    if pieces.len() == 0 {
        Seq::empty()
    } else if pieces.len() == 1 {
        pieces[0]
    } else {
        joined_with(pieces.drop_last(), separator) + seq![separator] + pieces.last()
    }
}

/// Splitting gives back the pieces that were joined.
pub proof fn splitting_undoes_joining(pieces: Seq<Seq<char>>, separator: char)
    requires
        pieces.len() > 0,
        forall|i: int| 0 <= i < pieces.len() ==> !(#[trigger] pieces[i]).contains(separator),
    ensures
        split_all(joined_with(pieces, separator), separator) == pieces,
    decreases pieces.len(),
{
    if pieces.len() == 1 {
        separators_end_pieces(Seq::empty(), pieces[0], separator);
        assert(seq![pieces[0]] =~= pieces);
    } else {
        let rest = pieces.drop_last();
        assert forall|i: int| 0 <= i < rest.len() implies !(#[trigger] rest[i]).contains(
            separator,
        ) by {
            assert(rest[i] == pieces[i]);
        }
        splitting_undoes_joining(rest, separator);
        assert(!pieces[pieces.len() - 1].contains(separator));
        separators_end_pieces(joined_with(rest, separator), pieces.last(), separator);
        assert(rest.push(pieces.last()) =~= pieces);
    }
}

/// White space is exactly these characters, by number.
pub proof fn white_space_is_listed(c: char)
    ensures
        is_white_space(c) <==> {
            let code = c as u32;
            ||| 9 <= code <= 13
            ||| code == 32
            ||| code == 133
            ||| code == 160
            ||| code == 5760
            ||| 8192 <= code <= 8202
            ||| code == 8232
            ||| code == 8233
            ||| code == 8239
            ||| code == 8287
            ||| code == 12288
        },
{
}

/// Whether a text is white space throughout.
pub open spec fn all_white_space(text: Seq<char>) -> bool {
    forall|i: int| 0 <= i < text.len() ==> is_white_space(#[trigger] text[i])
}

/// Whether a text neither starts nor ends with white space.
pub open spec fn is_bare(text: Seq<char>) -> bool {
    text.len() > 0 ==> !is_white_space(text[0]) && !is_white_space(text.last())
}

/// Trimming takes away the white space around a text and nothing else.
pub proof fn trimming_keeps_the_middle(left: Seq<char>, text: Seq<char>, right: Seq<char>)
    requires
        all_white_space(left),
        all_white_space(right),
        is_bare(text),
    ensures
        trimmed(left + text + right) == text,
    decreases left.len() + right.len(),
{
    let whole = left + text + right;
    if left.len() > 0 {
        assert(is_white_space(left[0]));
        assert forall|i: int| 0 <= i < left.drop_first().len() implies is_white_space(
            #[trigger] left.drop_first()[i],
        ) by {
            assert(is_white_space(left[i + 1]));
        }
        trimming_keeps_the_middle(left.drop_first(), text, right);
        assert(whole.drop_first() =~= left.drop_first() + text + right);
    } else if right.len() > 0 {
        assert(is_white_space(right.last())) by {
            assert(right.last() == right[right.len() - 1]);
        }
        assert forall|i: int| 0 <= i < right.drop_last().len() implies is_white_space(
            #[trigger] right.drop_last()[i],
        ) by {
            assert(is_white_space(right[i]));
        }
        trimming_keeps_the_middle(left, text, right.drop_last());
        assert(whole =~= (left + text + right.drop_last()).push(right.last()));
        trimming_ignores_the_end(left + text + right.drop_last(), right.last());
    } else {
        assert(whole =~= text);
    }
}

/// The decimal digits, by their value.
pub open spec fn digits() -> Seq<char> {
    seq!['0', '1', '2', '3', '4', '5', '6', '7', '8', '9']
}

/// A number in plain decimal.
pub open spec fn spelled(number: nat) -> Seq<char>
    decreases number,
{
    if number < 10 {
        seq![digits()[number as int]]
    } else {
        spelled(number / 10).push(digits()[(number % 10) as int])
    }
}

/// A digit behind the spelling of a number makes ten times the number and the digit, as long
/// as that fits 16 bits; a digit behind nothing, or behind a plus sign alone, is its own value;
/// and behind anything else it spells nothing.
pub proof fn digits_count_by_place(text: Seq<char>, digit: int)
    requires
        0 <= digit < 10,
    ensures
        decimal_u16(text.push(digits()[digit])) == (match decimal_u16(text) {
            Some(number) => if number * 10 + digit <= 65535 {
                Some((number * 10 + digit) as u16)
            } else {
                None
            },
            None => if text == Seq::<char>::empty() || text == seq!['+'] {
                Some(digit as u16)
            } else {
                None
            },
        }),
{
    let c = digits()[digit];
    let longer = text.push(c);
    assert(is_digit(c) && c as int - '0' as int == digit);
    let spelling = |t: Seq<char>|
        if t.len() > 0 && t[0] == '+' {
            t.drop_first()
        } else {
            t
        };
    let before = spelling(text);
    let after = spelling(longer);
    assert(longer.drop_last() =~= text);
    assert(text.len() > 0 ==> after =~= before.push(c));
    if text.len() == 0 {
        assert(text =~= Seq::<char>::empty());
        assert(after =~= seq![c]);
        assert(after.drop_last() =~= Seq::<char>::empty());
        reveal_with_fuel(decimal_value, 2);
        assert(all_digits(after));
    } else {
        assert(after.drop_last() =~= before);
        if all_digits(before) {
            assert forall|i: int| 0 <= i < after.len() implies #[trigger] is_digit(after[i]) by {
                if i < before.len() {
                    assert(is_digit(before[i]));
                }
            }
        } else if all_digits(after) {
            assert forall|i: int| 0 <= i < before.len() implies #[trigger] is_digit(before[i]) by {
                assert(is_digit(after[i]));
            }
        }
        if before.len() == 0 {
            assert(text =~= seq!['+']);
            assert(before =~= Seq::<char>::empty());
        } else {
            assert(text != seq!['+']);
        }
        assert(text != Seq::<char>::empty());
    }
}

/// A text that is empty or that ends with anything but a digit spells nothing.
pub proof fn only_digits_spell_numbers(text: Seq<char>, c: char)
    requires
        !digits().contains(c),
    ensures
        decimal_u16(Seq::empty()) is None,
        decimal_u16(text.push(c)) is None,
{
    let longer = text.push(c);
    if is_digit(c) {
        let value = c as int - '0' as int;
        assert(0 <= value < 10);
        assert(digits()[value] == c);
    }
    assert(longer.last() == c);
    if longer[0] == '+' {
        let rest = longer.drop_first();
        if rest.len() > 0 && all_digits(rest) {
            assert(is_digit(rest[rest.len() - 1]));
        }
    } else {
        if all_digits(longer) {
            assert(is_digit(longer[longer.len() - 1]));
        }
    }
}

/// Every 16-bit number is read from its plain decimal spelling, and a larger number is not
/// read.
pub proof fn spelled_numbers_are_read(number: nat)
    ensures
        decimal_u16(spelled(number)) == (if number <= 65535 {
            Some(number as u16)
        } else {
            None
        }),
        spelled(number).len() > 0,
        forall|i: int| 0 <= i < spelled(number).len() ==> digits().contains(
            #[trigger] spelled(number)[i],
        ),
    decreases number,
{
    let digit = (number % 10) as int;
    assert(digits().contains(digits()[digit]));
    if number < 10 {
        digits_count_by_place(Seq::empty(), number as int);
        only_digits_spell_numbers(Seq::empty(), '+');
        assert(Seq::<char>::empty().push(digits()[number as int]) =~= spelled(number));
    } else {
        spelled_numbers_are_read(number / 10);
        digits_count_by_place(spelled(number / 10), digit);
        let front = spelled(number / 10);
        if front == seq!['+'] {
            assert(digits().contains(front[0]));
        }
        assert(front != Seq::<char>::empty());
    }
}

} // verus!
