//! What the operations on texts promise, whatever the text.

use vstd::prelude::*;

use crate::text::{
    all_digits, ascii_lowercase, decimal, digits_value, has_prefix, is_digit, is_white, lowercase,
    lowered, occurs, occurs_at, pieces, trim_end, trim_start, trimmed, unsigned_value,
};

verus! {

proof fn lemma_trim_start(s: Seq<char>) -> (a: int)
    ensures
        0 <= a <= s.len(),
        trim_start(s) == s.skip(a),
        forall|k: int| 0 <= k < a ==> is_white(#[trigger] s[k]),
        a < s.len() ==> !is_white(s[a]),
    decreases s.len(),
{
    if s.len() > 0 && is_white(s[0]) {
        let a = lemma_trim_start(s.skip(1));
        assert(s.skip(1).skip(a) =~= s.skip(a + 1));
        assert forall|k: int| 0 <= k < a + 1 implies is_white(#[trigger] s[k]) by {
            if k > 0 {
                assert(s.skip(1)[k - 1] == s[k]);
            }
        }
        a + 1
    } else {
        assert(s.skip(0) =~= s);
        0
    }
}

proof fn lemma_trim_end(s: Seq<char>) -> (b: int)
    ensures
        0 <= b <= s.len(),
        trim_end(s) == s.take(b),
        forall|k: int| b <= k < s.len() ==> is_white(#[trigger] s[k]),
        b > 0 ==> !is_white(s[b - 1]),
    decreases s.len(),
{
    if s.len() > 0 && is_white(s.last()) {
        let b = lemma_trim_end(s.drop_last());
        assert(s.drop_last().take(b) =~= s.take(b));
        assert forall|k: int| b <= k < s.len() implies is_white(#[trigger] s[k]) by {
            if k < s.len() - 1 {
                assert(s.drop_last()[k] == s[k]);
            }
        }
        b
    } else {
        assert(s.take(s.len() as int) =~= s);
        s.len() as int
    }
}

/// Trimming keeps a stretch of the text: all that it cuts is white space, and what is left neither
/// begins nor ends with any.
pub proof fn law_trimming_cuts_white_space_at_both_ends(s: Seq<char>) -> (r: (int, int))
    ensures
        0 <= r.0 <= r.1 <= s.len(),
        trimmed(s) == s.subrange(r.0, r.1),
        forall|k: int| (0 <= k < r.0 || r.1 <= k < s.len()) ==> is_white(#[trigger] s[k]),
        r.0 < r.1 ==> !is_white(s[r.0]) && !is_white(s[r.1 - 1]),
{
    let a = lemma_trim_start(s);
    let t = s.skip(a);
    let b = lemma_trim_end(t);
    assert(t.take(b) =~= s.subrange(a, a + b));
    assert forall|k: int| (0 <= k < a || a + b <= k < s.len()) implies is_white(#[trigger] s[k]) by {
        if k >= a + b {
            assert(t[k - a] == s[k]);
        }
    }
    if b > 0 {
        assert(t[b - 1] == s[a + b - 1]);
    }
    (a, a + b)
}

/// A text has nothing left after trimming exactly when it is all white space.
pub proof fn law_blank_texts_trim_to_nothing(s: Seq<char>)
    ensures
        trimmed(s).len() == 0 <==> forall|k: int| 0 <= k < s.len() ==> is_white(#[trigger] s[k]),
{
    let (a, b) = law_trimming_cuts_white_space_at_both_ends(s);
}

/// Making ASCII capitals small changes `A` to `Z` into `a` to `z` and nothing else.
pub proof fn law_ascii_lowercase_changes_capitals_alone(s: Seq<char>)
    ensures
        ascii_lowercase(s).len() == s.len(),
        forall|k: int|
            0 <= k < s.len() ==> (#[trigger] ascii_lowercase(s)[k]) as u32 == (if 65 <= s[k] as u32 <= 90 {
                s[k] as u32 + 32
            } else {
                s[k] as int
            }),
{
}

/// Lower case is Unicode's. Of ASCII texts it leaves only case out: two that differ in nothing else have
/// the same lower case.
pub proof fn law_lower_case_leaves_case_out(a: Seq<char>, b: Seq<char>)
    requires
        a.len() == b.len(),
        vstd::utf8::is_ascii_chars(a),
        vstd::utf8::is_ascii_chars(b),
        forall|k: int|
            0 <= k < a.len() ==> {
                ||| #[trigger] a[k] == b[k]
                ||| 'A' <= a[k] <= 'Z' && b[k] as u32 == a[k] as u32 + 32
                ||| 'A' <= b[k] <= 'Z' && a[k] as u32 == b[k] as u32 + 32
            },
    ensures
        lowered(a) == lowered(b),
        lowered(a).len() == a.len(),
        forall|k: int| 0 <= k < a.len() ==> !('A' <= #[trigger] lowered(a)[k] <= 'Z'),
{
    assert forall|k: int| 0 <= k < a.len() implies #[trigger] lowered(a)[k] == lowered(b)[k] by {
        assert(a[k] <= '\u{7f}');
        vstd::utf8::char_u32_cast(lowered(a)[k], lowered(a)[k] as u32);
        vstd::utf8::char_u32_cast(lowered(b)[k], lowered(b)[k] as u32);
    }
    assert(lowered(a) =~= lowered(b));
}

/// A text that is not all ASCII has the lower case that Unicode gives it.
pub proof fn law_other_texts_have_unicode_lower_case(s: Seq<char>, k: int)
    requires
        0 <= k < s.len(),
        s[k] > '\u{7f}',
    ensures
        lowered(s) == lowercase(s),
{
}

/// A text stands in another exactly when the other is something, the text, and something.
pub proof fn law_what_stands_in_a_text_has_a_before_and_an_after(hay: Seq<char>, needle: Seq<char>)
    ensures
        occurs(hay, needle) <==> exists|x: Seq<char>, y: Seq<char>| hay == #[trigger] (x + needle + y),
{
    if occurs(hay, needle) {
        let i = choose|i: int| occurs_at(hay, needle, i);
        let x = hay.take(i);
        let y = hay.skip(i + needle.len());
        assert(x + needle + y =~= hay.take(i) + hay.subrange(i, i + needle.len()) + hay.skip(
            i + needle.len(),
        ));
        assert(hay =~= x + needle + y);
    }
    if exists|x: Seq<char>, y: Seq<char>| hay == #[trigger] (x + needle + y) {
        let (x, y) = choose|x: Seq<char>, y: Seq<char>| hay == #[trigger] (x + needle + y);
        assert(hay.subrange(x.len() as int, (x.len() + needle.len()) as int) =~= needle);
        assert(occurs_at(hay, needle, x.len() as int));
    }
}

/// A text begins with another exactly when something follows that other in it.
pub proof fn law_a_prefix_comes_first(s: Seq<char>, prefix: Seq<char>)
    ensures
        has_prefix(s, prefix) <==> exists|y: Seq<char>| s == #[trigger] (prefix + y),
{
    if has_prefix(s, prefix) {
        assert(s =~= prefix + s.skip(prefix.len() as int));
    }
    if exists|y: Seq<char>| s == #[trigger] (prefix + y) {
        let y = choose|y: Seq<char>| s == #[trigger] (prefix + y);
        assert(s.subrange(0, prefix.len() as int) =~= prefix);
    }
}

/// Digits have their place value: of two runs written one after the other, the first counts as many tens
/// as the second has digits.
pub proof fn law_digits_have_place_value(a: Seq<char>, b: Seq<char>)
    requires
        all_digits(b),
    ensures
        digits_value(a + b) == digits_value(a) * vstd::arithmetic::power::pow(10, b.len())
            + digits_value(b),
    decreases b.len(),
{
    vstd::arithmetic::power::lemma_pow0(10);
    if b.len() == 0 {
        assert(a + b =~= a);
    } else {
        let c = b.drop_last();
        assert forall|k: int| 0 <= k < c.len() implies is_digit(#[trigger] c[k]) by {
            assert(c[k] == b[k]);
        }
        law_digits_have_place_value(a, c);
        assert((a + b).drop_last() =~= a + c);
        assert((a + b).last() == b.last());
        reveal(vstd::arithmetic::power::pow);
        assert(b[b.len() - 1] == b.last() && is_digit(b.last()));
        let p = vstd::arithmetic::power::pow(10, c.len());
        assert(vstd::arithmetic::power::pow(10, b.len()) == 10 * p);
        let v = digits_value(a) as int;
        assert((v * p) * 10 == v * (10 * p)) by (nonlinear_arith);
    }
}

/// One digit denotes its number.
pub proof fn law_a_digit_denotes_its_number(c: char)
    requires
        '0' <= c <= '9',
    ensures
        digits_value(seq![c]) == c as int - '0' as int,
{
    reveal_with_fuel(digits_value, 2);
    assert(seq![c].drop_last() =~= Seq::empty());
}

/// A number is written with digits alone, without leading zeros, and is read back as itself.
pub proof fn law_numbers_are_written_as_they_are_read(n: nat)
    ensures
        decimal(n).len() > 0,
        forall|k: int| 0 <= k < decimal(n).len() ==> '0' <= #[trigger] decimal(n)[k] <= '9',
        n > 0 ==> decimal(n)[0] != '0',
        digits_value(decimal(n)) == n,
    decreases n,
{
    crate::text::lemma_decimal_value(n);
    if n >= 10 {
        law_numbers_are_written_as_they_are_read(n / 10);
        assert(decimal(n)[0] == decimal(n / 10)[0]);
    }
}

/// White space is the tab, line and page controls, the spaces of all widths and the separators of lines
/// and paragraphs; no letter, digit or sign is.
pub proof fn law_white_space(c: char)
    ensures
        crate::text::is_white(c) <==> {
            let n = c as u32;
            ||| 9 <= n <= 13
            ||| n == 32
            ||| n == 133
            ||| n == 160
            ||| n == 5760
            ||| 8192 <= n <= 8202
            ||| n == 8232 || n == 8233 || n == 8239 || n == 8287 || n == 12288
        },
{
    broadcast use vstd::utf8::char_u32_cast;

}

/// A text is read as a number exactly when it is digits, after a `+` or not, and the number is not too
/// large.
pub proof fn law_unsigned_numbers(s: Seq<char>, max: nat)
    ensures
        unsigned_value(s, max) is Some ==> s.len() > 0,
        forall|k: int|
            0 <= k < s.len() && unsigned_value(s, max) is Some ==> '0' <= #[trigger] s[k] <= '9' || (k == 0
                && s[0] == '+' && s.len() > 1),
        s.len() > 0 && (forall|k: int| 0 <= k < s.len() ==> '0' <= #[trigger] s[k] <= '9')
            && digits_value(s) <= max ==> unsigned_value(s, max) == Some(digits_value(s))
            && unsigned_value(seq!['+'] + s, max) == Some(digits_value(s)),
        unsigned_value(s, max) matches Some(n) ==> n <= max && n == digits_value(
            if s[0] == '+' {
                s.skip(1)
            } else {
                s
            },
        ),
{
    let plus = seq!['+'] + s;
    assert(plus.skip(1) =~= s);
    if s.len() > 0 && (forall|k: int| 0 <= k < s.len() ==> '0' <= #[trigger] s[k] <= '9') {
        assert('0' <= s[0] <= '9');
        assert(all_digits(s));
    }
    if unsigned_value(s, max) is Some {
        assert forall|k: int| 0 <= k < s.len() implies '0' <= #[trigger] s[k] <= '9' || (k == 0 && s[0] == '+'
            && s.len() > 1) by {
            if s[0] == '+' {
                if k > 0 {
                    assert(s.skip(1)[k - 1] == s[k]);
                    assert(is_digit(s.skip(1)[k - 1]));
                }
            } else {
                assert(is_digit(s[k]));
            }
        }
    }
}

/// A text without a separator is one piece, and a separator parts what stands before it from what stands
/// after it.
pub proof fn law_separators_part_a_text(a: Seq<char>, b: Seq<char>, sep: char)
    ensures
        !a.contains(sep) ==> pieces(a, sep) == seq![a],
        pieces(a.push(sep) + b, sep) == pieces(a, sep) + pieces(b, sep),
    decreases a.len() + b.len(),
{
    let p = pieces(a, sep);
    if a.len() == 0 {
        assert(a =~= Seq::empty());
    } else if !a.contains(sep) {
        let c = a.drop_last();
        assert(!c.contains(sep)) by {
            if c.contains(sep) {
                let k = choose|k: int| 0 <= k < c.len() && c[k] == sep;
                assert(a[k] == sep);
            }
        }
        law_separators_part_a_text(c, Seq::empty(), sep);
        assert(a[a.len() - 1] == a.last());
        assert(p =~= seq![a]) by {
            assert(c.push(a.last()) =~= a);
        }
    }
    let whole = a.push(sep) + b;
    if b.len() == 0 {
        assert(whole =~= a.push(sep));
        assert(whole.drop_last() =~= a);
        assert(pieces(whole, sep) =~= p + seq![Seq::<char>::empty()]);
    } else {
        let c = b.drop_last();
        law_separators_part_a_text(a, c, sep);
        assert(whole.drop_last() =~= a.push(sep) + c);
        assert(whole.last() == b.last());
        lemma_has_pieces(c, sep);
        let q = pieces(c, sep);
        if b.last() == sep {
            assert((p + q).push(Seq::empty()) =~= p + q.push(Seq::empty()));
        } else {
            assert((p + q).update(p.len() + q.len() - 1, q.last().push(b.last())) =~= p + q.update(
                q.len() - 1,
                q.last().push(b.last()),
            ));
        }
    }
}

proof fn lemma_has_pieces(s: Seq<char>, sep: char)
    ensures
        pieces(s, sep).len() > 0,
    decreases s.len(),
{
    if s.len() > 0 {
        lemma_has_pieces(s.drop_last(), sep);
    }
}

} // verus!
