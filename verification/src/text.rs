//! Text as a sequence of characters: trimming, splitting, searching, and numbers in text.
use vstd::prelude::*;

use crate::order::{Ranked, Sortable};

verus! {

/// `String::push` of the standard library: the character is appended to the text.
pub assume_specification[ String::push ](target: &mut String, c: char)
    ensures
        final(target)@ == old(target)@.push(c),
;

/// The 25 characters with the Unicode property `White_Space`.
pub open spec fn is_white(c: char) -> bool {
    ||| '\u{9}' <= c <= '\u{d}'
    ||| c == ' '
    ||| c == '\u{85}'
    ||| c == '\u{a0}'
    ||| c == '\u{1680}'
    ||| '\u{2000}' <= c <= '\u{200a}'
    ||| c == '\u{2028}'
    ||| c == '\u{2029}'
    ||| c == '\u{202f}'
    ||| c == '\u{205f}'
    ||| c == '\u{3000}'
}

/// Whether a character is Unicode white space.
pub fn is_white_space(c: char) -> (white: bool)
    ensures
        white == is_white(c),
{
    ('\u{9}' <= c && c <= '\u{d}') || c == ' ' || c == '\u{85}' || c == '\u{a0}' || c == '\u{1680}'
        || ('\u{2000}' <= c && c <= '\u{200a}') || c == '\u{2028}' || c == '\u{2029}' || c
        == '\u{202f}' || c == '\u{205f}' || c == '\u{3000}'
}

/// `s` without the white space that it starts with.
pub open spec fn trimmed_start(s: Seq<char>) -> Seq<char>
    decreases s.len(),
{
    if s.len() > 0 && is_white(s[0]) {
        trimmed_start(s.drop_first())
    } else {
        s
    }
}

/// `s` without the white space that it ends with.
pub open spec fn trimmed_end(s: Seq<char>) -> Seq<char>
    decreases s.len(),
{
    if s.len() > 0 && is_white(s.last()) {
        trimmed_end(s.drop_last())
    } else {
        s
    }
}

/// `s` without the white space at either end.
pub open spec fn trimmed(s: Seq<char>) -> Seq<char> {
    trimmed_end(trimmed_start(s))
}

/// Whether `s` holds nothing but white space.
pub open spec fn is_blank(s: Seq<char>) -> bool {
    trimmed(s).len() == 0
}

/// The characters of a text, in order.
pub fn chars_of(text: &str) -> (chars: Vec<char>)
    ensures
        chars@ == text@,
{
    let mut chars: Vec<char> = Vec::new();
    for c in iter: text.chars()
        invariant
            chars@ == iter.seq().take(iter.index()),
            iter.seq() == text@,
    {
        chars.push(c);
    }
    assert(text@.take(text@.len() as int) == text@);
    chars
}

/// The text made of the characters from `from` up to but not including `to`.
pub fn text_of(chars: &Vec<char>, from: usize, to: usize) -> (text: String)
    requires
        from <= to <= chars@.len(),
    ensures
        text@ == chars@.subrange(from as int, to as int),
{
    let mut text = String::new();
    let mut i: usize = from;
    while i < to
        invariant
            from <= i <= to <= chars@.len(),
            text@ == chars@.subrange(from as int, i as int),
        decreases to - i,
    {
        text.push(chars[i]);
        i = i + 1;
    }
    text
}

/// Cuts the white space off both ends.
pub fn trim(text: &str) -> (inner: &str)
    ensures
        inner@ == trimmed(text@),
{
    let chars = chars_of(text);
    let mut from: usize = 0;
    assert(chars@.skip(0) == chars@);
    while from < chars.len() && is_white_space(chars[from])
        invariant
            from <= chars@.len(),
            chars@ == text@,
            trimmed_start(chars@) == trimmed_start(chars@.skip(from as int)),
        decreases chars@.len() - from,
    {
        assert(chars@.skip(from as int).drop_first() == chars@.skip(from + 1));
        from = from + 1;
    }
    assert(trimmed_start(text@) == text@.skip(from as int));
    let mut to: usize = chars.len();
    while from < to && is_white_space(chars[to - 1])
        invariant
            from <= to <= chars@.len(),
            chars@ == text@,
            trimmed_end(chars@.skip(from as int)) == trimmed_end(
                chars@.subrange(from as int, to as int),
            ),
        decreases to,
    {
        assert(chars@.subrange(from as int, to as int).drop_last() == chars@.subrange(
            from as int,
            to - 1,
        ));
        to = to - 1;
    }
    text.substring_char(from, to)
}

/// Whether a text holds nothing but white space.
pub fn blank(text: &str) -> (b: bool)
    ensures
        b == is_blank(text@),
{
    trim(text).is_empty()
}

/// Whether two texts hold the same characters.
pub fn same_text(left: &str, right: &str) -> (same: bool)
    ensures
        same == (left@ == right@),
{
    let left_chars = chars_of(left);
    let right_chars = chars_of(right);
    if left_chars.len() != right_chars.len() {
        return false;
    }
    let mut i: usize = 0;
    while i < left_chars.len()
        invariant
            left_chars@.len() == right_chars@.len(),
            left_chars@ == left@,
            right_chars@ == right@,
            i <= left_chars@.len(),
            forall|j: int| 0 <= j < i ==> left_chars@[j] == right_chars@[j],
        decreases left_chars@.len() - i,
    {
        if left_chars[i] != right_chars[i] {
            assert(left@[i as int] != right@[i as int]);
            return false;
        }
        i = i + 1;
    }
    assert(left@ =~= right@);
    true
}

/// Whether `needle` stands in `s` at position `at`.
pub open spec fn occurs_at(s: Seq<char>, needle: Seq<char>, at: int) -> bool {
    0 <= at && at + needle.len() <= s.len() && s.subrange(at, at + needle.len()) == needle
}

/// Whether `needle` stands anywhere in `s`.
pub open spec fn occurs_in(s: Seq<char>, needle: Seq<char>) -> bool {
    exists|at: int| occurs_at(s, needle, at)
}

/// Whether the characters of `needle` stand in `chars` at position `at`.
pub fn stands_at(chars: &Vec<char>, needle: &Vec<char>, at: usize) -> (found: bool)
    ensures
        found == occurs_at(chars@, needle@, at as int),
{
    if needle.len() > chars.len() || at > chars.len() - needle.len() {
        return false;
    }
    let mut i: usize = 0;
    while i < needle.len()
        invariant
            at + needle.len() <= chars.len(),
            i <= needle.len(),
            forall|j: int| 0 <= j < i ==> chars@[at + j] == needle@[j],
        decreases needle@.len() - i,
    {
        if chars[at + i] != needle[i] {
            assert(chars@.subrange(at as int, at + needle@.len())[i as int] != needle@[i as int]);
            return false;
        }
        i = i + 1;
    }
    assert(chars@.subrange(at as int, at + needle@.len()) =~= needle@);
    true
}

/// Whether `needle` stands anywhere in `text`.
pub fn contains(text: &str, needle: &str) -> (found: bool)
    ensures
        found == occurs_in(text@, needle@),
{
    let chars = chars_of(text);
    let needle_chars = chars_of(needle);
    let mut at: usize = 0;
    while at < chars.len()
        invariant
            chars@ == text@,
            needle_chars@ == needle@,
            at <= chars@.len(),
            forall|j: int| 0 <= j < at ==> !occurs_at(text@, needle@, j),
        decreases chars@.len() - at,
    {
        if stands_at(&chars, &needle_chars, at) {
            return true;
        }
        at = at + 1;
    }
    let found = stands_at(&chars, &needle_chars, at);
    assert(forall|j: int| occurs_at(text@, needle@, j) ==> j <= text@.len());
    found
}

/// Whether `s` begins with `prefix`.
pub open spec fn begins_with(s: Seq<char>, prefix: Seq<char>) -> bool {
    occurs_at(s, prefix, 0)
}

/// Whether `text` begins with `prefix`.
pub fn starts_with(text: &str, prefix: &str) -> (found: bool)
    ensures
        found == begins_with(text@, prefix@),
{
    stands_at(&chars_of(text), &chars_of(prefix), 0)
}

/// What follows `prefix` in `s`, if `s` begins with it.
pub open spec fn after_prefix(s: Seq<char>, prefix: Seq<char>) -> Option<Seq<char>> {
    if begins_with(s, prefix) {
        Some(s.skip(prefix.len() as int))
    } else {
        None
    }
}

/// What follows `prefix` in `text`, if `text` begins with it.
pub fn strip_prefix<'a>(text: &'a str, prefix: &str) -> (rest: Option<&'a str>)
    ensures
        rest.deep_view() == after_prefix(text@, prefix@),
{
    let chars = chars_of(text);
    let prefix_chars = chars_of(prefix);
    if stands_at(&chars, &prefix_chars, 0) {
        Some(text.substring_char(prefix_chars.len(), chars.len()))
    } else {
        None
    }
}

/// The pieces of `s` between the characters that are in `separators`. There is always at
/// least one piece, and a piece may be empty.
pub open spec fn pieces(s: Seq<char>, separators: Seq<char>) -> Seq<Seq<char>>
    decreases s.len(),
{
    if s.len() == 0 {
        seq![Seq::empty()]
    } else {
        let before = pieces(s.drop_last(), separators);
        if separators.contains(s.last()) {
            before.push(Seq::empty())
        } else {
            before.drop_last().push(before.last().push(s.last()))
        }
    }
}

/// Whether a character is one of those in `set`.
pub fn is_one_of(c: char, set: &Vec<char>) -> (found: bool)
    ensures
        found == set@.contains(c),
{
    let mut i: usize = 0;
    while i < set.len()
        invariant
            i <= set@.len(),
            forall|j: int| 0 <= j < i ==> set@[j] != c,
        decreases set@.len() - i,
    {
        if set[i] == c {
            return true;
        }
        i = i + 1;
    }
    false
}

/// There is always at least one piece.
pub proof fn pieces_are_some(s: Seq<char>, separators: Seq<char>)
    ensures
        pieces(s, separators).len() >= 1,
    decreases s.len(),
{
    if s.len() > 0 {
        pieces_are_some(s.drop_last(), separators);
    }
}

/// The pieces of `text` between the characters that are in `separators`.
pub fn split(text: &str, separators: &str) -> (parts: Vec<String>)
    ensures
        parts.deep_view() == pieces(text@, separators@),
        parts@.len() >= 1,
{
    let chars = chars_of(text);
    let set = chars_of(separators);
    let mut parts: Vec<String> = Vec::new();
    let mut current = String::new();
    let mut i: usize = 0;
    assert(chars@.take(0) == Seq::<char>::empty());
    assert(pieces(chars@.take(0), set@) == parts.deep_view().push(current@));
    while i < chars.len()
        invariant
            i <= chars@.len(),
            pieces(chars@.take(i as int), set@) == parts.deep_view().push(current@),
        decreases chars@.len() - i,
    {
        let ghost before = parts.deep_view().push(current@);
        assert(chars@.take(i + 1).drop_last() == chars@.take(i as int));
        assert(chars@.take(i + 1).last() == chars@[i as int]);
        if is_one_of(chars[i], &set) {
            let ghost old_parts = parts.deep_view();
            parts.push(current);
            assert(parts.deep_view() == old_parts.push(before.last()));
            assert(parts.deep_view() == before);
            current = String::new();
            assert(parts.deep_view().push(current@) == before.push(Seq::empty()));
        } else {
            current.push(chars[i]);
            assert(parts.deep_view().push(current@) == before.drop_last().push(
                before.last().push(chars@[i as int]),
            ));
        }
        i = i + 1;
    }
    assert(chars@.take(i as int) == text@);
    let ghost old_parts = parts.deep_view();
    let ghost last = current@;
    parts.push(current);
    assert(parts.deep_view() == old_parts.push(last));
    parts
}

/// The texts of `parts` with `separator` between each two of them.
pub open spec fn joined(parts: Seq<Seq<char>>, separator: Seq<char>) -> Seq<char>
    decreases parts.len(),
{
    if parts.len() == 0 {
        Seq::empty()
    } else if parts.len() == 1 {
        parts[0]
    } else {
        joined(parts.drop_last(), separator) + separator + parts.last()
    }
}

/// The texts of `parts` with `separator` between each two of them.
pub fn join(parts: &Vec<String>, separator: &str) -> (text: String)
    ensures
        text@ == joined(parts.deep_view(), separator@),
{
    let mut text = String::new();
    let mut i: usize = 0;
    while i < parts.len()
        invariant
            i <= parts@.len(),
            text@ == joined(parts.deep_view().take(i as int), separator@),
        decreases parts@.len() - i,
    {
        assert(parts.deep_view().take(i + 1).drop_last() == parts.deep_view().take(i as int));
        if i > 0 {
            text.append(separator);
        }
        text.append(parts[i].as_str());
        i = i + 1;
    }
    assert(parts.deep_view().take(i as int) == parts.deep_view());
    text
}

/// The text of one decimal digit.
pub open spec fn digit_char(d: nat) -> char
    recommends
        d < 10,
{
    (48 + d) as char
}

/// The decimal digits of a number, without leading zeros.
pub open spec fn decimal(n: nat) -> Seq<char>
    decreases n,
{
    if n < 10 {
        seq![digit_char(n)]
    } else {
        decimal(n / 10).push(digit_char(n % 10))
    }
}

/// The decimal digits of a number, at least two of them.
pub open spec fn two_digits(n: nat) -> Seq<char> {
    if n < 10 {
        seq!['0', digit_char(n)]
    } else {
        decimal(n)
    }
}

fn digit_text(d: u8) -> (c: char)
    requires
        d < 10,
    ensures
        c == digit_char(d as nat),
{
    (48 + d) as char
}

/// Appends the decimal digits of `n` to `text`.
pub fn push_decimal(text: &mut String, n: u128)
    ensures
        final(text)@ == old(text)@ + decimal(n as nat),
    decreases n,
{
    if n < 10 {
        text.push(digit_text(n as u8));
        assert(text@ == old(text)@ + decimal(n as nat));
    } else {
        push_decimal(text, n / 10);
        text.push(digit_text((n % 10) as u8));
        assert(text@ == old(text)@ + decimal(n as nat));
    }
}

/// The decimal digits of `n`.
pub fn decimal_text(n: u128) -> (text: String)
    ensures
        text@ == decimal(n as nat),
{
    let mut text = String::new();
    push_decimal(&mut text, n);
    assert(text@ =~= decimal(n as nat));
    text
}

/// Appends the decimal digits of `n` to `text`, at least two of them.
pub fn push_two_digits(text: &mut String, n: u8)
    ensures
        final(text)@ == old(text)@ + two_digits(n as nat),
{
    if n < 10 {
        text.push('0');
        text.push(digit_text(n));
        assert(text@ == old(text)@ + two_digits(n as nat));
    } else {
        push_decimal(text, n as u128);
    }
}

/// Whether a character is a decimal digit of ASCII.
pub open spec fn is_digit(c: char) -> bool {
    '0' <= c <= '9'
}

/// Whether `s` holds decimal digits of ASCII only.
pub open spec fn all_digits(s: Seq<char>) -> bool {
    forall|i: int| 0 <= i < s.len() ==> is_digit(#[trigger] s[i])
}

/// The number that a sequence of decimal digits stands for.
pub open spec fn digits_value(s: Seq<char>) -> nat
    recommends
        all_digits(s),
    decreases s.len(),
{
    if s.len() == 0 {
        0
    } else {
        digits_value(s.drop_last()) * 10 + (s.last() as nat - 48) as nat
    }
}

/// Whether a text holds decimal digits of ASCII only.
pub fn only_digits(text: &str) -> (only: bool)
    ensures
        only == all_digits(text@),
{
    let chars = chars_of(text);
    let mut i: usize = 0;
    while i < chars.len()
        invariant
            chars@ == text@,
            i <= chars@.len(),
            forall|j: int| 0 <= j < i ==> is_digit(#[trigger] chars@[j]),
        decreases chars@.len() - i,
    {
        if chars[i] < '0' || chars[i] > '9' {
            assert(!is_digit(text@[i as int]));
            return false;
        }
        i = i + 1;
    }
    true
}

/// The unsigned number that `s` stands for, if it is one and is at most `max`: decimal
/// digits, at least one, after at most one plus sign.
pub open spec fn unsigned_value(s: Seq<char>, max: nat) -> Option<nat> {
    let digits = if s.len() > 0 && s[0] == '+' {
        s.skip(1)
    } else {
        s
    };
    if digits.len() > 0 && all_digits(digits) && digits_value(digits) <= max {
        Some(digits_value(digits))
    } else {
        None
    }
}

proof fn lemma_digits_value_grows(s: Seq<char>, i: int)
    requires
        0 <= i <= s.len(),
        all_digits(s),
    ensures
        digits_value(s.take(i)) <= digits_value(s),
    decreases s.len() - i,
{
    if i < s.len() {
        lemma_digits_value_grows(s, i + 1);
        assert(s.take(i + 1).drop_last() == s.take(i));
    } else {
        assert(s.take(i) == s);
    }
}

/// Reads an unsigned number that is at most `max`.
pub fn parse_unsigned(text: &str, max: u64) -> (value: Option<u64>)
    ensures
        match value {
            Some(v) => unsigned_value(text@, max as nat) == Some(v as nat),
            None => unsigned_value(text@, max as nat) is None,
        },
{
    let chars = chars_of(text);
    let from: usize = if chars.len() > 0 && chars[0] == '+' {
        1
    } else {
        0
    };
    let ghost digits = if text@.len() > 0 && text@[0] == '+' {
        text@.skip(1)
    } else {
        text@
    };
    assert(digits =~= chars@.skip(from as int));
    if from == chars.len() {
        return None;
    }
    let mut value: u64 = 0;
    let mut i: usize = from;
    assert(digits.take(0) == Seq::<char>::empty());
    while i < chars.len()
        invariant
            from <= 1,
            from <= i <= chars@.len(),
            digits == chars@.skip(from as int),
            all_digits(digits.take(i - from)),
            digits_value(digits.take(i - from)) == value,
            value <= max,
            digits == if text@.len() > 0 && text@[0] == '+' {
                text@.skip(1)
            } else {
                text@
            },
        decreases chars@.len() - i,
    {
        let c = chars[i];
        assert(c == digits[i - from]);
        if c < '0' || c > '9' {
            assert(!is_digit(digits[i - from]));
            return None;
        }
        let d: u64 = c as u64 - 48;
        assert(digits.take(i - from + 1).drop_last() == digits.take(i - from));
        assert(digits_value(digits.take(i - from + 1)) == value * 10 + d);
        if d > max || value > (max - d) / 10 {
            proof {
                if all_digits(digits) {
                    lemma_digits_value_grows(digits, i - from + 1);
                }
            }
            return None;
        }
        value = value * 10 + d;
        i = i + 1;
    }
    assert(digits.take(i - from) == digits);
    Some(value)
}

/// `s` without the carriage return that it may end with.
pub open spec fn without_carriage_return(s: Seq<char>) -> Seq<char> {
    if s.len() > 0 && s.last() == '\r' {
        s.drop_last()
    } else {
        s
    }
}

/// The lines of `s`. A line ends at a newline, and a carriage return right before that newline
/// is not part of the line; the newline of the last line is optional.
pub open spec fn lines_of(s: Seq<char>) -> Seq<Seq<char>> {
    let parts = pieces(s, seq!['\n']);
    let ended = parts.drop_last().map_values(|line: Seq<char>| without_carriage_return(line));
    if parts.last().len() == 0 {
        ended
    } else {
        ended.push(parts.last())
    }
}

/// The lines of a text.
pub fn lines(text: &str) -> (found: Vec<String>)
    ensures
        found.deep_view() == lines_of(text@),
{
    proof {
        reveal_strlit("\n");
    }
    assert("\n"@ == seq!['\n']);
    let parts = split(text, "\n");
    let mut found: Vec<String> = Vec::new();
    let mut i: usize = 0;
    while i < parts.len() - 1
        invariant
            i < parts@.len(),
            found.deep_view() == parts.deep_view().take(i as int).map_values(
                |line: Seq<char>| without_carriage_return(line),
            ),
        decreases parts@.len() - i,
    {
        let chars = chars_of(parts[i].as_str());
        let ghost before = found.deep_view();
        let end: usize = if chars.len() > 0 && chars[chars.len() - 1] == '\r' {
            chars.len() - 1
        } else {
            chars.len()
        };
        let line = text_of(&chars, 0, end);
        assert(line@ == without_carriage_return(parts@[i as int]@));
        let ghost line_view = line@;
        found.push(line);
        assert(found.deep_view() == before.push(line_view));
        assert(parts.deep_view().take(i + 1) == parts.deep_view().take(i as int).push(
            parts@[i as int]@,
        ));
        assert(found.deep_view() =~= parts.deep_view().take(i + 1).map_values(
            |line: Seq<char>| without_carriage_return(line),
        ));
        i = i + 1;
    }
    assert(parts.deep_view().take(i as int) == parts.deep_view().drop_last());
    if !parts[i].as_str().is_empty() {
        let ghost before = found.deep_view();
        found.push(parts[i].clone());
        assert(found.deep_view() == before.push(parts@[i as int]@));
    }
    found
}

/// The ASCII lower-case form of a character; other characters stay as they are.
pub open spec fn ascii_lower(c: char) -> char {
    if 'A' <= c <= 'Z' {
        (c as u32 + 32) as char
    } else {
        c
    }
}

/// Whether two texts are the same but for the case of ASCII letters.
pub open spec fn same_ignoring_ascii_case(a: Seq<char>, b: Seq<char>) -> bool {
    a.len() == b.len() && forall|i: int|
        0 <= i < a.len() ==> ascii_lower(#[trigger] a[i]) == ascii_lower(b[i])
}

fn lower(c: char) -> (l: char)
    ensures
        l == ascii_lower(c),
{
    if 'A' <= c && c <= 'Z' {
        (c as u8 + 32) as char
    } else {
        c
    }
}

/// Whether two texts are the same but for the case of ASCII letters.
pub fn eq_ignoring_ascii_case(left: &str, right: &str) -> (same: bool)
    ensures
        same == same_ignoring_ascii_case(left@, right@),
{
    let a = chars_of(left);
    let b = chars_of(right);
    if a.len() != b.len() {
        return false;
    }
    let mut i: usize = 0;
    while i < a.len()
        invariant
            a@ == left@,
            b@ == right@,
            a@.len() == b@.len(),
            i <= a@.len(),
            forall|j: int| 0 <= j < i ==> ascii_lower(#[trigger] a@[j]) == ascii_lower(b@[j]),
        decreases a@.len() - i,
    {
        if lower(a[i]) != lower(b[i]) {
            assert(ascii_lower(left@[i as int]) != ascii_lower(right@[i as int]));
            return false;
        }
        i = i + 1;
    }
    true
}

/// The hexadecimal digit for a number below sixteen, in lower or upper case.
pub open spec fn hex_char(d: nat, upper: bool) -> char
    recommends
        d < 16,
{
    if d < 10 {
        (48 + d) as char
    } else if upper {
        (55 + d) as char
    } else {
        (87 + d) as char
    }
}

/// The hexadecimal digit for a number below sixteen.
pub fn hex_digit(d: u8, upper: bool) -> (c: char)
    requires
        d < 16,
    ensures
        c == hex_char(d as nat, upper),
{
    if d < 10 {
        (48 + d) as char
    } else if upper {
        (55 + d) as char
    } else {
        (87 + d) as char
    }
}

/// A text without separators is one piece.
pub proof fn pieces_of_one(s: Seq<char>, separators: Seq<char>)
    requires
        forall|i: int| 0 <= i < s.len() ==> !separators.contains(#[trigger] s[i]),
    ensures
        pieces(s, separators) == seq![s],
    decreases s.len(),
{
    if s.len() > 0 {
        let shorter = s.drop_last();
        assert forall|i: int| 0 <= i < shorter.len() implies !separators.contains(
            #[trigger] shorter[i],
        ) by {
            assert(shorter[i] == s[i]);
        }
        pieces_of_one(shorter, separators);
        assert(!separators.contains(s[s.len() - 1]));
        assert(shorter.push(s.last()) == s);
        assert(pieces(s, separators) =~= seq![s]);
    } else {
        assert(s =~= Seq::empty());
    }
}

/// A separator parts the pieces before it from the pieces after it.
pub proof fn pieces_around(a: Seq<char>, c: char, b: Seq<char>, separators: Seq<char>)
    requires
        separators.contains(c),
    ensures
        pieces(a.push(c) + b, separators) == pieces(a, separators) + pieces(b, separators),
    decreases b.len(),
{
    pieces_are_some(a, separators);
    pieces_are_some(b, separators);
    let whole = a.push(c) + b;
    if b.len() == 0 {
        assert(whole =~= a.push(c));
        assert(whole.drop_last() =~= a);
        assert(pieces(whole, separators) =~= pieces(a, separators) + pieces(b, separators));
    } else {
        let shorter = b.drop_last();
        pieces_around(a, c, shorter, separators);
        pieces_are_some(shorter, separators);
        assert(whole.drop_last() =~= a.push(c) + shorter);
        assert(whole.last() == b.last());
        let before = pieces(a, separators) + pieces(shorter, separators);
        assert(before.last() == pieces(shorter, separators).last());
        assert(before.drop_last() =~= pieces(a, separators) + pieces(
            shorter,
            separators,
        ).drop_last());
        assert(pieces(whole, separators) =~= pieces(a, separators) + pieces(b, separators));
    }
}

/// A text that neither begins nor ends with white space has nothing to trim.
pub proof fn trimmed_of_tight(s: Seq<char>)
    requires
        s.len() > 0 ==> !is_white(s[0]) && !is_white(s.last()),
    ensures
        trimmed(s) == s,
{
}

proof fn lemma_trimmed_start(s: Seq<char>) -> (at: int)
    ensures
        0 <= at <= s.len(),
        trimmed_start(s) == s.skip(at),
        forall|i: int| 0 <= i < at ==> is_white(#[trigger] s[i]),
        at < s.len() ==> !is_white(s[at]),
    decreases s.len(),
{
    if s.len() > 0 && is_white(s[0]) {
        let rest = s.drop_first();
        let k = lemma_trimmed_start(rest);
        assert forall|i: int| 0 <= i < k + 1 implies is_white(#[trigger] s[i]) by {
            if i > 0 {
                assert(rest[i - 1] == s[i]);
            }
        }
        assert(rest.skip(k) =~= s.skip(k + 1));
        if k < rest.len() {
            assert(rest[k] == s[k + 1]);
        }
        k + 1
    } else {
        assert(s.skip(0) =~= s);
        0
    }
}

proof fn lemma_trimmed_end(s: Seq<char>) -> (to: int)
    ensures
        0 <= to <= s.len(),
        trimmed_end(s) == s.take(to),
        forall|i: int| to <= i < s.len() ==> is_white(#[trigger] s[i]),
        to > 0 ==> !is_white(s[to - 1]),
    decreases s.len(),
{
    if s.len() > 0 && is_white(s.last()) {
        let front = s.drop_last();
        let to = lemma_trimmed_end(front);
        assert forall|i: int| to <= i < s.len() implies is_white(#[trigger] s[i]) by {
            if i < front.len() {
                assert(front[i] == s[i]);
            }
        }
        assert(front.take(to) =~= s.take(to));
        to
    } else {
        assert(s.take(s.len() as int) =~= s);
        s.len() as int
    }
}

/// Trimming cuts off white space, all of it at both ends, and nothing else.
pub proof fn trimming_cuts_white_space_only(s: Seq<char>) -> (at: int)
    ensures
        0 <= at,
        at + trimmed(s).len() <= s.len(),
        s.subrange(at, at + trimmed(s).len()) == trimmed(s),
        forall|i: int| 0 <= i < at ==> is_white(#[trigger] s[i]),
        forall|i: int| at + trimmed(s).len() <= i < s.len() ==> is_white(#[trigger] s[i]),
        trimmed(s).len() > 0 ==> !is_white(trimmed(s)[0]) && !is_white(
            trimmed(s)[trimmed(s).len() - 1],
        ),
{
    let at = lemma_trimmed_start(s);
    let rest = s.skip(at);
    let to = lemma_trimmed_end(rest);
    assert(s.subrange(at, at + to) =~= trimmed(s));
    assert forall|i: int| at + to <= i < s.len() implies is_white(#[trigger] s[i]) by {
        assert(rest[i - at] == s[i]);
    }
    if to > 0 {
        assert(trimmed(s)[0] == s[at]);
    }
    at
}

/// What was trimmed once has nothing to trim.
pub proof fn trimming_twice_is_trimming_once(s: Seq<char>)
    ensures
        trimmed(trimmed(s)) == trimmed(s),
{
    let at = trimming_cuts_white_space_only(s);
    trimmed_of_tight(trimmed(s));
}

/// A text is blank when it holds white space only, such as spaces and tabs, and no character that
/// is printed.
pub proof fn blank_means_white_space_only(s: Seq<char>)
    ensures
        is_blank(s) <==> forall|i: int| 0 <= i < s.len() ==> is_white(#[trigger] s[i]),
        is_white(' ') && is_white('\t') && is_white('\n') && is_white('\r'),
        forall|c: char| '!' <= c <= '~' ==> !#[trigger] is_white(c),
{
    let at = trimming_cuts_white_space_only(s);
    if !is_blank(s) {
        assert(s[at] == trimmed(s)[0]);
    }
}

/// Splitting at separators loses nothing else: a text without separators is one piece, and a
/// separator between two texts parts their pieces.
pub proof fn pieces_of_two(a: Seq<char>, c: char, b: Seq<char>, separators: Seq<char>)
    requires
        separators.contains(c),
        forall|i: int| 0 <= i < a.len() ==> !separators.contains(#[trigger] a[i]),
        forall|i: int| 0 <= i < b.len() ==> !separators.contains(#[trigger] b[i]),
    ensures
        pieces(a.push(c) + b, separators) == seq![a, b],
{
    pieces_of_one(a, separators);
    pieces_of_one(b, separators);
    pieces_around(a, c, b, separators);
    assert(seq![a] + seq![b] =~= seq![a, b]);
}

/// Every character of a text that is no separator stands in one of its pieces.
pub proof fn pieces_hold_every_character(s: Seq<char>, separators: Seq<char>, i: int) -> (k: int)
    requires
        0 <= i < s.len(),
        !separators.contains(s[i]),
    ensures
        0 <= k < pieces(s, separators).len(),
        pieces(s, separators)[k].contains(s[i]),
    decreases s.len(),
{
    let front = s.drop_last();
    let before = pieces(front, separators);
    pieces_are_some(front, separators);
    if i < s.len() - 1 {
        let k = pieces_hold_every_character(front, separators, i);
        if !separators.contains(s.last()) && k == before.len() - 1 {
            let m = choose|m: int| 0 <= m < before[k].len() && before[k][m] == s[i];
            assert(pieces(s, separators)[k][m] == s[i]);
        } else {
            assert(pieces(s, separators)[k] == before[k]);
        }
        k
    } else {
        let k = before.len() - 1;
        let piece = pieces(s, separators)[k];
        assert(piece[piece.len() - 1] == s[i]);
        k
    }
}

/// The two digits of a number below one hundred are digits, and stand for it.
pub proof fn two_digits_read_back(n: nat)
    requires
        n < 100,
    ensures
        two_digits(n).len() == 2,
        all_digits(two_digits(n)),
        digits_value(two_digits(n)) == n,
{
    let s = two_digits(n);
    reveal_with_fuel(decimal, 3);
    reveal_with_fuel(digits_value, 4);
    if n < 10 {
        assert(s =~= seq!['0', digit_char(n)]);
        assert(s.drop_last() =~= seq!['0']);
        assert(s.drop_last().drop_last() =~= Seq::empty());
    } else {
        assert(s =~= seq![digit_char(n / 10), digit_char(n % 10)]);
        assert(s.drop_last() =~= seq![digit_char(n / 10)]);
        assert(s.drop_last().drop_last() =~= Seq::empty());
    }
    assert(is_digit(s[0]) && is_digit(s[1]));
}

/// Whether `a` comes before `b` in a dictionary that goes by the numbers of the characters.
pub open spec fn text_before(a: Seq<char>, b: Seq<char>) -> bool
    decreases a.len(),
{
    &&& b.len() > 0
    &&& (a.len() == 0 || a[0] < b[0] || (a[0] == b[0] && text_before(
        a.drop_first(),
        b.drop_first(),
    )))
}

/// Of two different texts, one comes before the other.
pub proof fn text_order_is_total(a: Seq<char>, b: Seq<char>)
    ensures
        text_before(a, b) || text_before(b, a) || a == b,
    decreases a.len(),
{
    if a.len() == 0 || b.len() == 0 {
        if a.len() == b.len() {
            assert(a =~= b);
        }
    } else if a[0] == b[0] {
        text_order_is_total(a.drop_first(), b.drop_first());
        if a.drop_first() == b.drop_first() {
            assert(a =~= seq![a[0]] + a.drop_first());
            assert(b =~= seq![b[0]] + b.drop_first());
        }
    }
}

proof fn lemma_text_order_is_asymmetric(a: Seq<char>, b: Seq<char>)
    ensures
        text_before(a, b) ==> !text_before(b, a),
    decreases a.len(),
{
    if a.len() > 0 && b.len() > 0 {
        lemma_text_order_is_asymmetric(a.drop_first(), b.drop_first());
    }
}

proof fn lemma_text_order_is_negatively_transitive(a: Seq<char>, b: Seq<char>, c: Seq<char>)
    ensures
        !text_before(a, b) && !text_before(b, c) ==> !text_before(a, c),
    decreases a.len(),
{
    if a.len() > 0 && b.len() > 0 && c.len() > 0 {
        lemma_text_order_is_negatively_transitive(
            a.drop_first(),
            b.drop_first(),
            c.drop_first(),
        );
    }
}

impl Ranked for Seq<char> {
    open spec fn precedes(self, other: Self) -> bool {
        text_before(self, other)
    }

    proof fn precedes_is_asymmetric(a: Self, b: Self) {
        lemma_text_order_is_asymmetric(a, b);
        assert(a.precedes(b) == text_before(a, b));
        assert(b.precedes(a) == text_before(b, a));
    }

    proof fn precedes_is_negatively_transitive(a: Self, b: Self, c: Self) {
        lemma_text_order_is_negatively_transitive(a, b, c);
        assert(a.precedes(b) == text_before(a, b));
        assert(b.precedes(c) == text_before(b, c));
        assert(a.precedes(c) == text_before(a, c));
    }
}

/// Whether one text comes before another.
pub fn is_text_before(left: &str, right: &str) -> (before: bool)
    ensures
        before == text_before(left@, right@),
{
    let a = chars_of(left);
    let b = chars_of(right);
    let mut i: usize = 0;
    assert(a@.skip(0) == a@ && b@.skip(0) == b@);
    while i < a.len() && i < b.len()
        invariant
            i <= a@.len(),
            i <= b@.len(),
            a@ == left@,
            b@ == right@,
            text_before(a@, b@) == text_before(a@.skip(i as int), b@.skip(i as int)),
        decreases a@.len() - i,
    {
        assert(a@.skip(i as int).drop_first() == a@.skip(i + 1));
        assert(b@.skip(i as int).drop_first() == b@.skip(i + 1));
        if a[i] < b[i] {
            return true;
        }
        if b[i] < a[i] {
            return false;
        }
        i = i + 1;
    }
    i < b.len()
}

impl Sortable for String {
    fn comes_before(&self, other: &String) -> (before: bool) {
        is_text_before(self.as_str(), other.as_str())
    }
}

/// `s` without the characters `c` at its end.
pub open spec fn without_trailing(s: Seq<char>, c: char) -> Seq<char>
    decreases s.len(),
{
    if s.len() > 0 && s.last() == c {
        without_trailing(s.drop_last(), c)
    } else {
        s
    }
}

/// The text without the characters `c` at its end.
pub fn trim_end_char(text: &str, c: char) -> (inner: &str)
    ensures
        inner@ == without_trailing(text@, c),
{
    let chars = chars_of(text);
    let mut to: usize = chars.len();
    assert(chars@.take(to as int) == chars@);
    while to > 0 && chars[to - 1] == c
        invariant
            to <= chars@.len(),
            without_trailing(chars@.take(to as int), c) == without_trailing(chars@, c),
        decreases to,
    {
        assert(chars@.take(to as int).drop_last() == chars@.take(to - 1));
        to = to - 1;
    }
    assert(chars@.subrange(0, to as int) == chars@.take(to as int));
    text.substring_char(0, to)
}

/// The hexadecimal digits of bytes, two for each.
pub open spec fn hex_text(bytes: Seq<u8>) -> Seq<char>
    decreases bytes.len(),
{
    if bytes.len() == 0 {
        Seq::empty()
    } else {
        hex_text(bytes.drop_last()).push(hex_char((bytes.last() / 16) as nat, false)).push(
            hex_char((bytes.last() % 16) as nat, false),
        )
    }
}

/// The hexadecimal digits of bytes, two for each.
pub fn hex_bytes(bytes: &Vec<u8>) -> (text: String)
    ensures
        text@ == hex_text(bytes@),
{
    let mut text = String::new();
    let mut i: usize = 0;
    assert(text@ =~= hex_text(bytes@.take(0)));
    while i < bytes.len()
        invariant
            i <= bytes@.len(),
            text@ == hex_text(bytes@.take(i as int)),
        decreases bytes@.len() - i,
    {
        assert(bytes@.take(i + 1).drop_last() == bytes@.take(i as int));
        text.push(hex_digit(bytes[i] / 16, false));
        text.push(hex_digit(bytes[i] % 16, false));
        i = i + 1;
    }
    assert(bytes@.take(i as int) == bytes@);
    text
}

/// Whether a character is a hexadecimal digit in small letters.
pub open spec fn is_small_hex(c: char) -> bool {
    '0' <= c <= '9' || 'a' <= c <= 'f'
}

/// Bytes have two hexadecimal digits each, none of them white space.
pub proof fn hex_text_is_tight(bytes: Seq<u8>)
    ensures
        hex_text(bytes).len() == 2 * bytes.len(),
        forall|i: int|
            0 <= i < hex_text(bytes).len() ==> is_small_hex(#[trigger] hex_text(bytes)[i])
                && !is_white(hex_text(bytes)[i]),
    decreases bytes.len(),
{
    if bytes.len() > 0 {
        hex_text_is_tight(bytes.drop_last());
    }
}

/// The decimal digits of a number are digits, and stand for it.
pub proof fn decimal_reads_back(n: nat)
    ensures
        decimal(n).len() > 0,
        all_digits(decimal(n)),
        digits_value(decimal(n)) == n,
    decreases n,
{
    if n < 10 {
        reveal_with_fuel(digits_value, 2);
        assert(decimal(n) =~= seq![digit_char(n)]);
        assert(decimal(n).drop_last() =~= Seq::empty());
        assert(is_digit(decimal(n)[0]));
    } else {
        decimal_reads_back(n / 10);
        let shorter = decimal(n / 10);
        assert(decimal(n).drop_last() =~= shorter);
        assert forall|i: int| 0 <= i < decimal(n).len() implies is_digit(
            #[trigger] decimal(n)[i],
        ) by {
            if i < shorter.len() {
                assert(decimal(n)[i] == shorter[i]);
            }
        }
    }
}

/// Two texts that differ only in the case of ASCII letters count as the same when case does not
/// matter: a capital letter and the small one count as one, and two other characters only if they
/// are equal.
pub proof fn only_the_case_of_letters_is_ignored(a: Seq<char>, b: Seq<char>, i: int)
    requires
        same_ignoring_ascii_case(a, b),
        0 <= i < a.len(),
    ensures
        a.len() == b.len(),
        a[i] == b[i] || ('A' <= a[i] <= 'Z' && b[i] as int == a[i] as int + 32) || ('A' <= b[i]
            <= 'Z' && a[i] as int == b[i] as int + 32),
        same_ignoring_ascii_case(b, a),
{
    assert(ascii_lower(a[i]) == ascii_lower(b[i]));
}

/// Where every character is the same but for the case of ASCII letters, the texts are.
pub proof fn case_of_letters_is_ignored(a: Seq<char>, b: Seq<char>)
    requires
        a.len() == b.len(),
        forall|i: int|
            #![trigger a[i]]
            0 <= i < a.len() ==> a[i] == b[i] || ('A' <= a[i] <= 'Z' && b[i] as int == a[i] as int
                + 32) || ('A' <= b[i] <= 'Z' && a[i] as int == b[i] as int + 32),
    ensures
        same_ignoring_ascii_case(a, b),
{
}

/// Joined texts hold every one of the texts, each behind the other, with a separator between two
/// of them and nowhere else.
pub proof fn joined_texts_hold_every_text(
    parts: Seq<Seq<char>>,
    part: Seq<char>,
    separator: Seq<char>,
)
    ensures
        joined(Seq::empty(), separator).len() == 0,
        joined(seq![part], separator) == part,
        parts.len() > 0 ==> joined(parts.push(part), separator) == joined(parts, separator)
            + separator + part,
{
    assert(parts.push(part).drop_last() =~= parts);
    assert(seq![part].len() == 1);
}

/// A line ends at a newline, with or without a carriage return before it; what follows the last
/// newline is a line if it is not empty.
pub proof fn newlines_end_lines(line: Seq<char>, rest: Seq<char>)
    requires
        forall|i: int| 0 <= i < line.len() ==> #[trigger] line[i] != '\n',
        line.len() > 0 ==> line.last() != '\r',
    ensures
        lines_of(line.push('\n') + rest) == seq![line] + lines_of(rest),
        lines_of(line.push('\r').push('\n') + rest) == seq![line] + lines_of(rest),
        line.len() > 0 ==> lines_of(line) == seq![line],
{
    let set = seq!['\n'];
    assert(set[0] == '\n');
    assert(set.contains('\n'));
    let cut = |l: Seq<char>| without_carriage_return(l);
    let returned = line.push('\r');
    assert forall|i: int| 0 <= i < returned.len() implies !set.contains(#[trigger] returned[i]) by {
        if i < line.len() {
            assert(returned[i] == line[i]);
        }
    }
    pieces_of_one(line, set);
    pieces_of_one(returned, set);
    pieces_around(line, '\n', rest, set);
    pieces_around(returned, '\n', rest, set);
    pieces_are_some(rest, set);
    let parts = pieces(rest, set);
    assert((seq![line] + parts).drop_last() =~= seq![line] + parts.drop_last());
    assert((seq![returned] + parts).drop_last() =~= seq![returned] + parts.drop_last());
    assert((seq![line] + parts.drop_last()).map_values(cut) =~= seq![line]
        + parts.drop_last().map_values(cut));
    assert(returned.drop_last() =~= line);
    assert((seq![returned] + parts.drop_last()).map_values(cut) =~= seq![line]
        + parts.drop_last().map_values(cut));
    assert((seq![line] + parts).last() == parts.last());
    assert((seq![returned] + parts).last() == parts.last());
    assert(lines_of(line.push('\n') + rest) =~= seq![line] + lines_of(rest));
    assert(lines_of(returned.push('\n') + rest) =~= seq![line] + lines_of(rest));
    if line.len() > 0 {
        assert(seq![line].drop_last().map_values(cut) =~= Seq::empty());
        assert(lines_of(line) =~= seq![line]);
    }
}

/// Of two texts the one comes first that has the smaller character where they first differ, or
/// that ends there.
pub proof fn texts_go_by_their_first_difference(a: Seq<char>, b: Seq<char>, k: int)
    requires
        0 <= k <= a.len(),
        k < b.len(),
        forall|i: int| 0 <= i < k ==> #[trigger] a[i] == b[i],
    ensures
        k == a.len() ==> text_before(a, b),
        k < a.len() && a[k] < b[k] ==> text_before(a, b),
        k < a.len() && a[k] > b[k] ==> !text_before(a, b),
    decreases k,
{
    if k > 0 {
        assert(a[0] == b[0]);
        assert forall|i: int| 0 <= i < k - 1 implies #[trigger] a.drop_first()[i]
            == b.drop_first()[i] by {
            assert(a[i + 1] == b[i + 1]);
        }
        texts_go_by_their_first_difference(a.drop_first(), b.drop_first(), k - 1);
    }
}

/// Slashes, or other characters, behind a text go, and only they do.
pub proof fn only_what_trails_goes(s: Seq<char>, c: char)
    ensures
        without_trailing(s, c).len() <= s.len(),
        s.take(without_trailing(s, c).len() as int) == without_trailing(s, c),
        without_trailing(s, c).len() > 0 ==> without_trailing(s, c).last() != c,
        forall|i: int| without_trailing(s, c).len() <= i < s.len() ==> #[trigger] s[i] == c,
    decreases s.len(),
{
    if s.len() > 0 && s.last() == c {
        let shorter = s.drop_last();
        only_what_trails_goes(shorter, c);
        let n = without_trailing(s, c).len() as int;
        assert(s.take(n) =~= shorter.take(n));
        assert forall|i: int| n <= i < s.len() implies #[trigger] s[i] == c by {
            if i < s.len() - 1 {
                assert(shorter[i] == c);
            }
        }
    } else {
        assert(s.take(s.len() as int) =~= s);
    }
}

} // verus!
