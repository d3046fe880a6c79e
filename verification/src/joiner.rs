//! Characters that join: they may be shown wider or narrower beside others than alone. While a page is
//! laid out, others stand in for them.

use vstd::prelude::*;

use crate::markup::stands_at;
use crate::text::chars_of;

verus! {

/// What stands in for the character with this code, where it joins: joiners, selectors and modifiers of
/// emoji, the Arabic lam, and signs that join letters of a few other scripts.
pub open spec fn stand_in(code: u32) -> Option<char> {
    if code == 0x200d {
        Some('\u{e01e0}')
    } else if code == 0xfe01 {
        Some('\u{e01e1}')
    } else if code == 0xfe0e {
        Some('\u{e01e2}')
    } else if code == 0xfe0f {
        Some('\u{e01e3}')
    } else if code == 0x17d2 {
        Some('\u{e01e4}')
    } else if code == 0x1f3fb {
        Some('\u{2f800}')
    } else if code == 0x1f3fc {
        Some('\u{2f801}')
    } else if code == 0x1f3fd {
        Some('\u{2f802}')
    } else if code == 0x1f3fe {
        Some('\u{2f803}')
    } else if code == 0x1f3ff {
        Some('\u{2f804}')
    } else if code == 0x644 {
        Some('\u{e644}')
    } else if code == 0x6b5 {
        Some('\u{e6b5}')
    } else if code == 0x6b6 {
        Some('\u{e6b6}')
    } else if code == 0x6b7 {
        Some('\u{e6b7}')
    } else if code == 0x6b8 {
        Some('\u{e6b8}')
    } else if code == 0x76a {
        Some('\u{e76a}')
    } else if code == 0x8a6 {
        Some('\u{e8a6}')
    } else if code == 0x8c7 {
        Some('\u{e8c7}')
    } else if code == 0x2d7f {
        Some('\u{ed7f}')
    } else if code == 0xa4fc {
        Some('\u{f4fc}')
    } else if code == 0xa4fd {
        Some('\u{f4fd}')
    } else if code == 0x16d67 {
        Some('\u{f0d67}')
    } else if code == 0x16d68 {
        Some('\u{f0d68}')
    } else {
        None
    }
}

/// The character that the one with this code stands in for.
pub open spec fn original(code: u32) -> Option<char> {
    if code == 0xe01e0 {
        Some('\u{200d}')
    } else if code == 0xe01e1 {
        Some('\u{fe01}')
    } else if code == 0xe01e2 {
        Some('\u{fe0e}')
    } else if code == 0xe01e3 {
        Some('\u{fe0f}')
    } else if code == 0xe01e4 {
        Some('\u{17d2}')
    } else if code == 0x2f800 {
        Some('\u{1f3fb}')
    } else if code == 0x2f801 {
        Some('\u{1f3fc}')
    } else if code == 0x2f802 {
        Some('\u{1f3fd}')
    } else if code == 0x2f803 {
        Some('\u{1f3fe}')
    } else if code == 0x2f804 {
        Some('\u{1f3ff}')
    } else if code == 0xe644 {
        Some('\u{644}')
    } else if code == 0xe6b5 {
        Some('\u{6b5}')
    } else if code == 0xe6b6 {
        Some('\u{6b6}')
    } else if code == 0xe6b7 {
        Some('\u{6b7}')
    } else if code == 0xe6b8 {
        Some('\u{6b8}')
    } else if code == 0xe76a {
        Some('\u{76a}')
    } else if code == 0xe8a6 {
        Some('\u{8a6}')
    } else if code == 0xe8c7 {
        Some('\u{8c7}')
    } else if code == 0xed7f {
        Some('\u{2d7f}')
    } else if code == 0xf4fc {
        Some('\u{a4fc}')
    } else if code == 0xf4fd {
        Some('\u{a4fd}')
    } else if code == 0xf0d67 {
        Some('\u{16d67}')
    } else if code == 0xf0d68 {
        Some('\u{16d68}')
    } else {
        None
    }
}

fn find_stand_in(code: u32) -> (r: Option<char>)
    ensures
        r == stand_in(code),
{
    if code == 0x200d {
        Some('\u{e01e0}')
    } else if code == 0xfe01 {
        Some('\u{e01e1}')
    } else if code == 0xfe0e {
        Some('\u{e01e2}')
    } else if code == 0xfe0f {
        Some('\u{e01e3}')
    } else if code == 0x17d2 {
        Some('\u{e01e4}')
    } else if code == 0x1f3fb {
        Some('\u{2f800}')
    } else if code == 0x1f3fc {
        Some('\u{2f801}')
    } else if code == 0x1f3fd {
        Some('\u{2f802}')
    } else if code == 0x1f3fe {
        Some('\u{2f803}')
    } else if code == 0x1f3ff {
        Some('\u{2f804}')
    } else if code == 0x644 {
        Some('\u{e644}')
    } else if code == 0x6b5 {
        Some('\u{e6b5}')
    } else if code == 0x6b6 {
        Some('\u{e6b6}')
    } else if code == 0x6b7 {
        Some('\u{e6b7}')
    } else if code == 0x6b8 {
        Some('\u{e6b8}')
    } else if code == 0x76a {
        Some('\u{e76a}')
    } else if code == 0x8a6 {
        Some('\u{e8a6}')
    } else if code == 0x8c7 {
        Some('\u{e8c7}')
    } else if code == 0x2d7f {
        Some('\u{ed7f}')
    } else if code == 0xa4fc {
        Some('\u{f4fc}')
    } else if code == 0xa4fd {
        Some('\u{f4fd}')
    } else if code == 0x16d67 {
        Some('\u{f0d67}')
    } else if code == 0x16d68 {
        Some('\u{f0d68}')
    } else {
        None
    }
}

fn find_original(code: u32) -> (r: Option<char>)
    ensures
        r == original(code),
{
    if code == 0xe01e0 {
        Some('\u{200d}')
    } else if code == 0xe01e1 {
        Some('\u{fe01}')
    } else if code == 0xe01e2 {
        Some('\u{fe0e}')
    } else if code == 0xe01e3 {
        Some('\u{fe0f}')
    } else if code == 0xe01e4 {
        Some('\u{17d2}')
    } else if code == 0x2f800 {
        Some('\u{1f3fb}')
    } else if code == 0x2f801 {
        Some('\u{1f3fc}')
    } else if code == 0x2f802 {
        Some('\u{1f3fd}')
    } else if code == 0x2f803 {
        Some('\u{1f3fe}')
    } else if code == 0x2f804 {
        Some('\u{1f3ff}')
    } else if code == 0xe644 {
        Some('\u{644}')
    } else if code == 0xe6b5 {
        Some('\u{6b5}')
    } else if code == 0xe6b6 {
        Some('\u{6b6}')
    } else if code == 0xe6b7 {
        Some('\u{6b7}')
    } else if code == 0xe6b8 {
        Some('\u{6b8}')
    } else if code == 0xe76a {
        Some('\u{76a}')
    } else if code == 0xe8a6 {
        Some('\u{8a6}')
    } else if code == 0xe8c7 {
        Some('\u{8c7}')
    } else if code == 0xed7f {
        Some('\u{2d7f}')
    } else if code == 0xf4fc {
        Some('\u{a4fc}')
    } else if code == 0xf4fd {
        Some('\u{a4fd}')
    } else if code == 0xf0d67 {
        Some('\u{16d67}')
    } else if code == 0xf0d68 {
        Some('\u{16d68}')
    } else {
        None
    }
}

/// Whether the character with this code joins.
pub(crate) fn joins(code: u32) -> (r: bool)
    ensures
        r == stand_in(code) is Some,
{
    find_stand_in(code).is_some()
}

/// What a digit of a character reference stands for.
pub open spec fn digit_value(c: char, hex: bool) -> Option<u32> {
    if '0' <= c <= '9' {
        Some((c as u32 - '0' as u32) as u32)
    } else if hex && 'a' <= c <= 'f' {
        Some((c as u32 - 'a' as u32 + 10) as u32)
    } else if hex && 'A' <= c <= 'F' {
        Some((c as u32 - 'A' as u32 + 10) as u32)
    } else {
        None
    }
}

/// One more than the largest code of a character.
pub const NO_CODE: u32 = 0x110000;

/// The code after one more digit. It stays at one that no character has.
pub open spec fn longer_code(code: u32, digit: u32, hex: bool) -> u32 {
    let next = code * (if hex {
        16int
    } else {
        10int
    }) + digit;
    if next < NO_CODE {
        next as u32
    } else {
        NO_CODE
    }
}

/// The code whose digits go on at `i`, after some that made `code`, and where they end.
pub open spec fn code_from(s: Seq<char>, i: int, hex: bool, code: u32) -> (u32, int)
    decreases s.len() - i,
{
    if i >= s.len() {
        (code, i)
    } else {
        match digit_value(s[i], hex) {
            Some(d) => code_from(s, i + 1, hex, longer_code(code, d, hex)),
            None => (code, i),
        }
    }
}

/// The code in the numeric reference that stands here, if one does, and where the reference ends.
pub open spec fn reference(s: Seq<char>, i: int) -> Option<(u32, int)> {
    let hex = crate::text::occurs_at(s, "&#x"@, i) || crate::text::occurs_at(s, "&#X"@, i);
    let a = if hex {
        i + 3
    } else {
        i + 2
    };
    let (code, e) = code_from(s, a, hex, 0);
    if crate::text::occurs_at(s, "&#"@, i) && e > a {
        Some(
            (
                code,
                if e < s.len() && s[e] == ';' {
                    e + 1
                } else {
                    e
                },
            ),
        )
    } else {
        None
    }
}

/// A page from `i` on, with others in place of the characters that join, written out or as references.
pub open spec fn masked(s: Seq<char>, i: int) -> Seq<char>
    decreases s.len() - i,
{
    if i >= s.len() {
        Seq::empty()
    } else {
        proof {
            lemma_reference(s, i);
        }
        match reference(s, i) {
            Some((code, e)) if stand_in(code) is Some => seq![stand_in(code)->Some_0] + masked(s, e),
            _ => seq![mask(s[i])] + masked(s, i + 1),
        }
    }
}

/// What stands in for a character, or the character.
pub open spec fn mask(c: char) -> char {
    match stand_in(c as u32) {
        Some(m) => m,
        None => c,
    }
}

/// What a character stands in for, or the character.
pub open spec fn unmask(c: char) -> char {
    match original(c as u32) {
        Some(m) => m,
        None => c,
    }
}

/// A text with the characters back that others stood in for.
pub open spec fn unmasked(s: Seq<char>) -> Seq<char> {
    s.map_values(|c: char| unmask(c))
}

/// What stands here is a character that stands in for others, written out or as a reference.
pub open spec fn is_stand_in(s: Seq<char>, i: int) -> bool {
    ||| original(s[i] as u32) is Some
    ||| reference(s, i) matches Some((code, _)) && original(code) is Some
}

/// The text has characters that stand in for others.
pub open spec fn has_stand_ins(s: Seq<char>) -> bool {
    exists|i: int| 0 <= i < s.len() && #[trigger] is_stand_in(s, i)
}

/// Digits end where they begin or later, within the text.
proof fn lemma_code_end(s: Seq<char>, i: int, hex: bool, code: u32)
    ensures
        code_from(s, i, hex, code).1 >= i,
        i <= s.len() ==> code_from(s, i, hex, code).1 <= s.len(),
    decreases s.len() - i,
{
    if i < s.len() {
        if let Some(d) = digit_value(s[i], hex) {
            lemma_code_end(s, i + 1, hex, longer_code(code, d, hex));
        }
    }
}

/// A reference ends past its beginning, within the text.
pub proof fn lemma_reference(s: Seq<char>, i: int)
    ensures
        reference(s, i) matches Some((_, e)) ==> i < e <= s.len(),
{
    reveal_strlit("&#");
    reveal_strlit("&#x");
    reveal_strlit("&#X");
    lemma_code_end(s, i + 2, false, 0);
    lemma_code_end(s, i + 3, true, 0);
}

/// Characters come back as they were: in a page without numeric references and without characters
/// that stand in for others, what was put in place of those that join gives them back.
pub proof fn law_stand_ins_are_undone(s: Seq<char>, i: int)
    requires
        0 <= i <= s.len(),
        forall|k: int| 0 <= k < s.len() ==> #[trigger] reference(s, k) is None,
        !has_stand_ins(s),
    ensures
        unmasked(masked(s, i)) == s.skip(i),
    decreases s.len() - i,
{
    if i < s.len() {
        assert(reference(s, i) is None);
        law_stand_ins_are_undone(s, i + 1);
        assert(!is_stand_in(s, i));
        let back = unmask(mask(s[i]));
        vstd::utf8::char_u32_cast(s[i], s[i] as u32);
        vstd::utf8::char_u32_cast(back, back as u32);
        assert(back == s[i]);
        assert(unmasked(masked(s, i)) =~= seq![s[i]] + unmasked(masked(s, i + 1)));
        assert(s.skip(i) =~= seq![s[i]] + s.skip(i + 1));
    } else {
        assert(unmasked(masked(s, i)) =~= s.skip(i));
    }
}

fn read_digit(c: char, hex: bool) -> (r: Option<u32>)
    ensures
        r == digit_value(c, hex),
        r matches Some(d) ==> d < 16,
{
    if '0' <= c && c <= '9' {
        Some(c as u32 - '0' as u32)
    } else if hex && 'a' <= c && c <= 'f' {
        Some(c as u32 - 'a' as u32 + 10)
    } else if hex && 'A' <= c && c <= 'F' {
        Some(c as u32 - 'A' as u32 + 10)
    } else {
        None
    }
}

fn read_code(v: &Vec<char>, from: usize, hex: bool) -> (r: (u32, usize))
    requires
        from <= v@.len(),
    ensures
        from <= r.1 <= v@.len(),
        code_from(v@, from as int, hex, 0) == (r.0, r.1 as int),
{
    let mut code: u32 = 0;
    let mut i: usize = from;
    while i < v.len()
        invariant
            from <= i <= v@.len(),
            code <= NO_CODE,
            code_from(v@, i as int, hex, code) == code_from(v@, from as int, hex, 0),
        decreases v@.len() - i,
    {
        match read_digit(v[i], hex) {
            Some(d) => {
                let base: u32 = if hex {
                    16
                } else {
                    10
                };
                let next: u32 = code * base + d;
                code = if next < NO_CODE {
                    next
                } else {
                    NO_CODE
                };
            },
            None => {
                return (code, i);
            },
        }
        i = i + 1;
    }
    (code, i)
}

/// The code in the numeric reference that stands here, if one does, and where the reference ends.
pub(crate) fn read_reference(v: &Vec<char>, i: usize) -> (r: Option<(u32, usize)>)
    requires
        i < v@.len(),
    ensures
        match r {
            Some((code, e)) => i < e <= v@.len() && reference(v@, i as int) == Some((code, e as int)),
            None => reference(v@, i as int) is None,
        },
{
    proof {
        reveal_strlit("&#");
        reveal_strlit("&#x");
        reveal_strlit("&#X");
        if crate::text::occurs_at(v@, "&#"@, i as int) {
            assert(v@.subrange(i as int, i + 2)[0] == '&');
        }
    }
    if v[i] != '&' || !stands_at(v, "&#", i) {
        return None;
    }
    assert(i + 2 <= v.len());
    let hex = stands_at(v, "&#x", i) || stands_at(v, "&#X", i);
    let a: usize = if hex {
        i + 3
    } else {
        i + 2
    };
    let (code, e) = read_code(v, a, hex);
    if e == a {
        return None;
    }
    if e < v.len() && v[e] == ';' {
        Some((code, e + 1))
    } else {
        Some((code, e))
    }
}

/// A page with others in place of the characters that join.
pub fn mask_page(html: &str) -> (r: String)
    ensures
        r@ == masked(html@, 0),
{
    let v = chars_of(html);
    let mut out = String::new();
    let mut i: usize = 0;
    assert(out@ + masked(v@, 0) =~= masked(v@, 0));
    while i < v.len()
        invariant
            v@ == html@,
            i <= v@.len(),
            out@ + masked(v@, i as int) == masked(v@, 0),
        decreases v@.len() - i,
    {
        let ghost before = out@;
        let (c, next): (char, usize) = match read_reference(&v, i) {
            Some((code, e)) => match find_stand_in(code) {
                Some(m) => (m, e),
                None => match find_stand_in(v[i] as u32) {
                    Some(m) => (m, i + 1),
                    None => (v[i], i + 1),
                },
            },
            None => match find_stand_in(v[i] as u32) {
                Some(m) => (m, i + 1),
                None => (v[i], i + 1),
            },
        };
        out.push(c);
        proof {
            assert(masked(v@, i as int) == seq![c] + masked(v@, next as int));
            assert(before + (seq![c] + masked(v@, next as int)) =~= out@ + masked(v@, next as int));
        }
        i = next;
    }
    assert(out@ + masked(v@, i as int) =~= out@);
    out
}

/// A text with the characters back that others stood in for.
pub fn unmask_text(text: &str) -> (r: String)
    ensures
        r@ == unmasked(text@),
{
    let v = chars_of(text);
    let mut out = String::new();
    let mut i: usize = 0;
    while i < v.len()
        invariant
            v@ == text@,
            i <= v@.len(),
            out@ == unmasked(text@).take(i as int),
        decreases v@.len() - i,
    {
        let c = match find_original(v[i] as u32) {
            Some(m) => m,
            None => v[i],
        };
        out.push(c);
        assert(unmasked(text@).take(i + 1) =~= unmasked(text@).take(i as int).push(c));
        i = i + 1;
    }
    assert(unmasked(text@).take(i as int) =~= unmasked(text@));
    out
}

/// Whether the page has characters that stand in for others.
pub fn holds_stand_ins(html: &str) -> (r: bool)
    ensures
        r == has_stand_ins(html@),
{
    let v = chars_of(html);
    let mut i: usize = 0;
    while i < v.len()
        invariant
            v@ == html@,
            i <= v@.len(),
            forall|k: int| 0 <= k < i ==> !#[trigger] is_stand_in(html@, k),
        decreases v@.len() - i,
    {
        let named = match read_reference(&v, i) {
            Some((code, _)) => find_original(code).is_some(),
            None => false,
        };
        if named || find_original(v[i] as u32).is_some() {
            assert(is_stand_in(html@, i as int));
            return true;
        }
        i = i + 1;
    }
    false
}

} // verus!
