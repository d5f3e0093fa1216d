//! Texts as sequences of characters.

use crate::string_map::key_views;
use vstd::prelude::*;

verus! {

/// `String::push`: appends one character to the text.
#[verifier::external_body]
fn push_char(text: &mut String, c: char)
    ensures
        final(text)@ == old(text)@.push(c),
{
    text.push(c);
}

/// The characters of a text.
pub fn chars_of(text: &str) -> (r: Vec<char>)
    ensures
        r@ == text@,
{
    let mut out: Vec<char> = Vec::new();
    for c in it: text.chars()
        invariant
            it.seq() == text@,
            out@ == it.seq().take(it.index() as int),
    {
        out.push(c);
        assert(it.seq().take(it.index() + 1) =~= it.seq().take(it.index() as int).push(c));
    }
    assert(text@.take(text@.len() as int) =~= text@);
    out
}

/// The text that the characters spell.
pub fn string_of(chars: &Vec<char>) -> (r: String)
    ensures
        r@ == chars@,
{
    let mut out = String::new();
    let mut i: usize = 0;
    while i < chars.len()
        invariant
            i <= chars@.len(),
            out@ == chars@.take(i as int),
        decreases chars@.len() - i,
    {
        push_char(&mut out, chars[i]);
        assert(chars@.take(i + 1) =~= chars@.take(i as int).push(chars@[i as int]));
        i = i + 1;
    }
    assert(chars@.take(i as int) =~= chars@);
    out
}

/// The lower-case form of an ASCII capital; any other character as it is.
pub open spec fn ascii_lower_char(c: char) -> char {
    if 'A' <= c && c <= 'Z' {
        ((c as u8 + 32) as u8) as char
    } else {
        c
    }
}

/// The text with each ASCII capital in lower case.
pub open spec fn ascii_lower(s: Seq<char>) -> Seq<char> {
    s.map_values(|c: char| ascii_lower_char(c))
}

/// The lower-case form of an ASCII capital; any other character as it is.
pub fn to_ascii_lowercase_char(c: char) -> (r: char)
    ensures
        r == ascii_lower_char(c),
{
    if 'A' <= c && c <= 'Z' {
        let code: u8 = c as u8;
        (code + 32) as char
    } else {
        c
    }
}

/// A copy of the text in which the ASCII letters `A` to `Z` are mapped to
/// `a` to `z` and every other character is unchanged.
pub fn to_ascii_lowercase(text: &str) -> (r: String)
    ensures
        r@ == ascii_lower(text@),
{
    let chars = chars_of(text);
    let mut out: Vec<char> = Vec::new();
    let mut i: usize = 0;
    while i < chars.len()
        invariant
            i <= chars@.len(),
            out@ == ascii_lower(chars@.take(i as int)),
        decreases chars@.len() - i,
    {
        out.push(to_ascii_lowercase_char(chars[i]));
        assert(ascii_lower(chars@.take(i + 1)) =~= ascii_lower(chars@.take(i as int)).push(
            ascii_lower_char(chars@[i as int]),
        ));
        i = i + 1;
    }
    assert(chars@.take(i as int) =~= chars@);
    string_of(&out)
}

/// Whether the character is white space: a space, a tab, a line break or
/// one of the other characters that Unicode counts as white space.
pub open spec fn is_space(c: char) -> bool {
    ||| c == ' '
    ||| ('\u{9}' <= c && c <= '\u{d}')
    ||| c == '\u{85}'
    ||| c == '\u{a0}'
    ||| c == '\u{1680}'
    ||| ('\u{2000}' <= c && c <= '\u{200a}')
    ||| c == '\u{2028}'
    ||| c == '\u{2029}'
    ||| c == '\u{202f}'
    ||| c == '\u{205f}'
    ||| c == '\u{3000}'
}

/// The text without the white space at its start.
pub open spec fn spec_trim_start(s: Seq<char>) -> Seq<char>
    decreases s.len(),
{
    if s.len() > 0 && is_space(s.first()) {
        spec_trim_start(s.drop_first())
    } else {
        s
    }
}

/// The text without the white space at its end.
pub open spec fn spec_trim_end(s: Seq<char>) -> Seq<char>
    decreases s.len(),
{
    if s.len() > 0 && is_space(s.last()) {
        spec_trim_end(s.drop_last())
    } else {
        s
    }
}

/// The text without the white space at its start and at its end.
pub open spec fn spec_trim(s: Seq<char>) -> Seq<char> {
    spec_trim_end(spec_trim_start(s))
}

/// The pieces of the text between its commas, from left to right: one
/// piece more than it has commas.
pub open spec fn spec_pieces(s: Seq<char>) -> Seq<Seq<char>>
    decreases s.len(),
{
    if s.len() == 0 {
        seq![Seq::empty()]
    } else {
        let before = spec_pieces(s.drop_last());
        if s.last() == ',' {
            before.push(Seq::empty())
        } else {
            before.drop_last().push(before.last().push(s.last()))
        }
    }
}

/// The entries of a list: the pieces between its commas, each without the
/// white space around it.
pub open spec fn spec_list(s: Seq<char>) -> Seq<Seq<char>> {
    spec_pieces(s).map_values(|piece: Seq<char>| spec_trim(piece))
}

/// Whether the character is white space.
pub fn is_space_char(c: char) -> (r: bool)
    ensures
        r == is_space(c),
{
    c == ' ' || ('\u{9}' <= c && c <= '\u{d}') || c == '\u{85}' || c == '\u{a0}' || c == '\u{1680}'
        || ('\u{2000}' <= c && c <= '\u{200a}') || c == '\u{2028}' || c == '\u{2029}' || c
        == '\u{202f}' || c == '\u{205f}' || c == '\u{3000}'
}

fn trim(piece: &Vec<char>) -> (r: Vec<char>)
    ensures
        r@ == spec_trim(piece@),
{
    let mut start: usize = 0;
    assert(piece@.skip(0) =~= piece@);
    while start < piece.len() && is_space_char(piece[start])
        invariant
            start <= piece@.len(),
            spec_trim_start(piece@) == spec_trim_start(piece@.skip(start as int)),
        decreases piece@.len() - start,
    {
        assert(piece@.skip(start as int).drop_first() =~= piece@.skip(start + 1));
        start = start + 1;
    }
    assert(spec_trim_start(piece@) == piece@.skip(start as int));
    let mut end: usize = piece.len();
    assert(piece@.subrange(start as int, end as int) =~= piece@.skip(start as int));
    while end > start && is_space_char(piece[end - 1])
        invariant
            start <= end <= piece@.len(),
            spec_trim(piece@) == spec_trim_end(piece@.subrange(start as int, end as int)),
        decreases end - start,
    {
        assert(piece@.subrange(start as int, end as int).drop_last() =~= piece@.subrange(
            start as int,
            end - 1,
        ));
        end = end - 1;
    }
    let mut out: Vec<char> = Vec::new();
    let mut i: usize = start;
    while i < end
        invariant
            start <= i <= end <= piece@.len(),
            out@ == piece@.subrange(start as int, i as int),
        decreases end - i,
    {
        out.push(piece[i]);
        assert(piece@.subrange(start as int, i + 1) =~= piece@.subrange(
            start as int,
            i as int,
        ).push(piece@[i as int]));
        i = i + 1;
    }
    out
}

/// The entries of a list that is written with commas: the pieces between
/// the commas, each without the white space around it. A text without a
/// comma is a list of one entry.
pub fn split_list(text: &str) -> (r: Vec<String>)
    ensures
        key_views(r@) == spec_list(text@),
{
    let chars = chars_of(text);
    let mut done: Vec<String> = Vec::new();
    let mut piece: Vec<char> = Vec::new();
    let mut i: usize = 0;
    let ghost trimmed = |piece: Seq<char>| spec_trim(piece);
    proof {
        assert(chars@.take(0) =~= Seq::<char>::empty());
        assert(spec_pieces(chars@.take(0)).drop_last() =~= Seq::<Seq<char>>::empty());
        assert(key_views(done@) =~= Seq::<Seq<char>>::empty().map_values(trimmed));
    }
    while i < chars.len()
        invariant
            i <= chars@.len(),
            trimmed == |piece: Seq<char>| spec_trim(piece),
            spec_pieces(chars@.take(i as int)).len() > 0,
            key_views(done@) == spec_pieces(chars@.take(i as int)).drop_last().map_values(trimmed),
            piece@ == spec_pieces(chars@.take(i as int)).last(),
        decreases chars@.len() - i,
    {
        let c = chars[i];
        let ghost before = spec_pieces(chars@.take(i as int));
        let ghost done_before = key_views(done@);
        proof {
            assert(chars@.take(i + 1).drop_last() =~= chars@.take(i as int));
            assert(chars@.take(i + 1).last() == c);
        }
        if c == ',' {
            let entry = string_of(&trim(&piece));
            done.push(entry);
            piece = Vec::new();
            proof {
                let after = spec_pieces(chars@.take(i + 1));
                assert(after == before.push(Seq::empty()));
                assert(after.drop_last() =~= before);
                assert(before =~= before.drop_last().push(before.last()));
                assert(key_views(done@) =~= done_before.push(entry@));
                assert(key_views(done@) =~= after.drop_last().map_values(trimmed));
            }
        } else {
            piece.push(c);
            proof {
                let after = spec_pieces(chars@.take(i + 1));
                assert(after == before.drop_last().push(before.last().push(c)));
                assert(after.drop_last() =~= before.drop_last());
            }
        }
        i = i + 1;
    }
    let entry = string_of(&trim(&piece));
    let ghost done_before = key_views(done@);
    done.push(entry);
    proof {
        assert(chars@.take(i as int) =~= chars@);
        let all = spec_pieces(chars@);
        assert(all =~= all.drop_last().push(all.last()));
        assert(key_views(done@) =~= done_before.push(entry@));
        assert(key_views(done@) =~= all.map_values(trimmed));
    }
    done
}

/// Whether the character is a decimal digit.
pub open spec fn is_digit(c: char) -> bool {
    '0' <= c && c <= '9'
}

/// The number that the digits spell; a character that is no digit counts
/// as what it is above `0`.
pub open spec fn digits_value(s: Seq<char>) -> int
    decreases s.len(),
{
    if s.len() == 0 {
        0
    } else {
        digits_value(s.drop_last()) * 10 + (s.last() as int - '0' as int)
    }
}

/// The number below 65536 that the digits spell, if they are digits, at
/// least one, and spell such a number.
pub open spec fn spec_unsigned(digits: Seq<char>) -> Option<u16> {
    if digits.len() > 0 && (forall|i: int| 0 <= i < digits.len() ==> is_digit(#[trigger] digits[i]))
        && digits_value(digits) <= u16::MAX {
        Some(digits_value(digits) as u16)
    } else {
        None
    }
}

/// The port that the text spells: decimal digits, at least one, with or
/// without a `+` before them, that spell a number below 65536.
pub open spec fn spec_port(s: Seq<char>) -> Option<u16> {
    if s.len() > 0 && s[0] == '+' {
        spec_unsigned(s.drop_first())
    } else {
        spec_unsigned(s)
    }
}

proof fn lemma_digits_grow(s: Seq<char>, n: int)
    requires
        0 <= n <= s.len(),
        forall|i: int| 0 <= i < s.len() ==> is_digit(#[trigger] s[i]),
    ensures
        0 <= digits_value(s.take(n)) <= digits_value(s),
    decreases s.len() - n,
{
    lemma_digits_nonnegative(s.take(n));
    if n == s.len() {
        assert(s.take(n) =~= s);
    } else {
        lemma_digits_grow(s, n + 1);
        assert(s.take(n + 1).drop_last() =~= s.take(n));
        assert(is_digit(s[n]));
        assert(s.take(n + 1).last() == s[n]);
    }
}

proof fn lemma_digits_nonnegative(s: Seq<char>)
    requires
        forall|i: int| 0 <= i < s.len() ==> is_digit(#[trigger] s[i]),
    ensures
        0 <= digits_value(s),
    decreases s.len(),
{
    if s.len() > 0 {
        lemma_digits_nonnegative(s.drop_last());
        assert(is_digit(s[s.len() - 1]));
    }
}

/// The port that the text spells, if it spells one.
pub fn parse_port(text: &str) -> (r: Option<u16>)
    ensures
        r == spec_port(text@),
{
    let chars = chars_of(text);
    let start: usize = if chars.len() > 0 && chars[0] == '+' {
        1
    } else {
        0
    };
    let ghost digits = if start == 1 {
        chars@.drop_first()
    } else {
        chars@
    };
    assert(digits =~= chars@.skip(start as int));
    if chars.len() == start {
        return None;
    }
    let mut value: u32 = 0;
    let mut i: usize = start;
    assert(digits.take(0) =~= Seq::<char>::empty());
    while i < chars.len()
        invariant
            start <= i <= chars@.len(),
            chars@ == text@,
            digits == chars@.skip(start as int),
            spec_port(text@) == spec_unsigned(digits),
            forall|j: int| 0 <= j < i - start ==> is_digit(#[trigger] digits[j]),
            value == digits_value(digits.take(i - start)),
            value <= u16::MAX,
        decreases chars@.len() - i,
    {
        let c = chars[i];
        proof {
            assert(digits[i - start] == c);
            assert(digits.take(i - start + 1).drop_last() =~= digits.take(i - start));
            assert(digits.take(i - start + 1).last() == c);
        }
        if !('0' <= c && c <= '9') {
            assert(!is_digit(digits[i - start]));
            return None;
        }
        let digit: u32 = c as u32 - '0' as u32;
        let next: u32 = value * 10 + digit;
        assert(next == digits_value(digits.take(i - start + 1)));
        if next > 65535 {
            proof {
                if forall|j: int| 0 <= j < digits.len() ==> is_digit(#[trigger] digits[j]) {
                    lemma_digits_grow(digits, i - start + 1);
                }
            }
            return None;
        }
        value = next;
        i = i + 1;
    }
    proof {
        assert(digits.take(i - start) =~= digits);
    }
    Some(value as u16)
}

} // verus!
