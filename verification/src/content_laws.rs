//! What extraction, hashes and instants promise.

use vstd::prelude::*;

use crate::content::{
    capped, extracted, fell_back, is_over, rendered_markdown, rendered_text, tokens, without_tags,
};
use crate::hash::{full_hash, sha256_digest, short_hash};
use crate::joiner::{masked, reference, stand_in};
use crate::layout::is_renderable;
use crate::model::ContentFormat;
use crate::text::trimmed;
use crate::time::{midnight_of, Duration, Timestamp};

verus! {

/// Of a page, the HTML format is the page and omitted content is nothing. Markdown and text are what
/// `html2text` renders, each by its own renderer and a hundred columns wide, without the white space
/// around it.
pub proof fn law_formats_are_rendered_each_its_own_way(html: Seq<char>)
    requires
        masked(html, 0) == html,
        is_renderable(html),
    ensures
        extracted(html, ContentFormat::Html) == html,
        extracted(html, ContentFormat::Omit).len() == 0,
        rendered_markdown(html, 100) matches Some(t) ==> extracted(html, ContentFormat::Markdown)
            == trimmed(t) && !fell_back(html, ContentFormat::Markdown),
        rendered_text(html, 100) matches Some(t) ==> extracted(html, ContentFormat::Text) == trimmed(t)
            && !fell_back(html, ContentFormat::Text),
        rendered_markdown(html, 100) is None ==> extracted(html, ContentFormat::Markdown) == trimmed(
            without_tags(html, false),
        ) && fell_back(html, ContentFormat::Markdown),
        rendered_text(html, 100) is None ==> extracted(html, ContentFormat::Text) == trimmed(
            without_tags(html, false),
        ) && fell_back(html, ContentFormat::Text),
{
}

/// A page that cannot be rendered has its tags cut out, and that is noted; the formats that need no
/// rendering never fall back.
pub proof fn law_what_cannot_be_rendered_loses_its_tags(html: Seq<char>)
    ensures
        masked(html, 0) == html && !is_renderable(html) ==> extracted(html, ContentFormat::Markdown)
            == trimmed(without_tags(html, false)) && extracted(html, ContentFormat::Text) == trimmed(
            without_tags(html, false),
        ) && fell_back(html, ContentFormat::Markdown) && fell_back(html, ContentFormat::Text),
        extracted(html, ContentFormat::Html) == html,
        extracted(html, ContentFormat::Omit).len() == 0,
        !fell_back(html, ContentFormat::Html),
        !fell_back(html, ContentFormat::Omit),
{
}

/// A page in which nothing joins is laid out as it is.
pub proof fn law_plain_pages_are_laid_out_as_they_are(s: Seq<char>, i: int)
    requires
        0 <= i <= s.len(),
        forall|k: int| 0 <= k < s.len() ==> stand_in((#[trigger] s[k]) as u32) is None,
        forall|k: int| 0 <= k < s.len() ==> (#[trigger] reference(s, k)) is None,
    ensures
        masked(s, i) == s.skip(i),
    decreases s.len() - i,
{
    if i < s.len() {
        law_plain_pages_are_laid_out_as_they_are(s, i + 1);
        assert(reference(s, i) is None);
        assert(stand_in(s[i] as u32) is None);
        assert(seq![s[i]] + s.skip(i + 1) =~= s.skip(i));
    } else {
        assert(s.skip(i) =~= Seq::empty());
    }
}

/// Cutting tags out cuts what stands from each `<` to the next `>`, or to the end, and keeps the rest.
pub proof fn law_tags_are_cut_out(text: Seq<char>, tag: Seq<char>, rest: Seq<char>)
    requires
        !text.contains('<'),
        !tag.contains('>'),
    ensures
        without_tags(text, false) == text,
        without_tags(text + (seq!['<'] + tag + seq!['>'] + rest), false) == text + without_tags(rest, false),
        without_tags(text + (seq!['<'] + tag), false) == text,
{
    lemma_text_stays(text, Seq::empty());
    assert(text + Seq::<char>::empty() =~= text);
    assert(without_tags(Seq::empty(), false) =~= Seq::empty());
    let t = seq!['<'] + tag + seq!['>'] + rest;
    lemma_text_stays(text, t);
    assert(t.skip(1) =~= tag + (seq!['>'] + rest));
    lemma_tag_goes(tag, rest);
    let u = seq!['<'] + tag;
    lemma_text_stays(text, u);
    assert(u.skip(1) =~= tag);
    lemma_open_tag_goes(tag);
    assert(text + Seq::<char>::empty() =~= text);
}

proof fn lemma_text_stays(text: Seq<char>, rest: Seq<char>)
    requires
        !text.contains('<'),
    ensures
        without_tags(text + rest, false) == text + without_tags(rest, false),
    decreases text.len(),
{
    if text.len() == 0 {
        assert(text + rest =~= rest);
        assert(text + without_tags(rest, false) =~= without_tags(rest, false));
    } else {
        assert(text.contains(text[0]));
        let t = text.skip(1);
        assert(!t.contains('<')) by {
            assert forall|k: int| 0 <= k < t.len() implies text.contains(#[trigger] t[k]) by {
                assert(t[k] == text[k + 1]);
            }
        }
        lemma_text_stays(t, rest);
        assert((text + rest).skip(1) =~= t + rest);
        assert((text + rest)[0] == text[0]);
        assert(seq![text[0]] + (t + without_tags(rest, false)) =~= text + without_tags(rest, false));
    }
}

proof fn lemma_tag_goes(tag: Seq<char>, rest: Seq<char>)
    requires
        !tag.contains('>'),
    ensures
        without_tags(tag + (seq!['>'] + rest), true) == without_tags(rest, false),
    decreases tag.len(),
{
    let s = tag + (seq!['>'] + rest);
    if tag.len() == 0 {
        assert(s.skip(1) =~= rest);
    } else {
        assert(tag.contains(tag[0]));
        let t = tag.skip(1);
        assert(!t.contains('>')) by {
            assert forall|k: int| 0 <= k < t.len() implies tag.contains(#[trigger] t[k]) by {
                assert(t[k] == tag[k + 1]);
            }
        }
        lemma_tag_goes(t, rest);
        assert(s.skip(1) =~= t + (seq!['>'] + rest));
        assert(s[0] == tag[0]);
    }
}

proof fn lemma_open_tag_goes(tag: Seq<char>)
    requires
        !tag.contains('>'),
    ensures
        without_tags(tag, true).len() == 0,
    decreases tag.len(),
{
    if tag.len() > 0 {
        assert(tag.contains(tag[0]));
        let t = tag.skip(1);
        assert(!t.contains('>')) by {
            assert forall|k: int| 0 <= k < t.len() implies tag.contains(#[trigger] t[k]) by {
                assert(t[k] == tag[k + 1]);
            }
        }
        lemma_open_tag_goes(t);
    }
}

/// A token is four characters, and a rest counts as one.
pub proof fn law_a_token_is_four_characters(n: nat)
    ensures
        4 * tokens(n) >= n,
        4 * tokens(n) < n + 4,
{
}

/// A cap leaves a body that fits as it is, and of a longer one keeps the first characters and adds a mark.
pub proof fn law_a_cap_keeps_the_beginning(body: Seq<char>, max: usize)
    ensures
        capped(body, None) == body,
        !is_over(body, None),
        is_over(body, Some(max)) <==> body.len() > max,
        body.len() <= max ==> capped(body, Some(max)) == body,
        body.len() > max ==> capped(body, Some(max)) == body.subrange(0, max as int)
            + " \u{2026}[truncated]"@,
{
}

/// What a hexadecimal digit stands for.
pub open spec fn nibble(c: char) -> int {
    if '0' <= c <= '9' {
        c as int - '0' as int
    } else {
        c as int - 'a' as int + 10
    }
}

/// A hash is the SHA-256 digest of the UTF-8 text, byte by byte in two lowercase hexadecimal digits; the
/// short one is its first sixteen.
pub proof fn law_a_hash_is_its_digest_in_hexadecimal(s: Seq<char>, k: int)
    requires
        sha256_digest(vstd::utf8::encode_utf8(s)).len() == 32,
        0 <= k < 32,
    ensures
        full_hash(s).len() == 64,
        short_hash(s) == full_hash(s).subrange(0, 16),
        16 * nibble(full_hash(s)[2 * k]) + nibble(full_hash(s)[2 * k + 1]) == sha256_digest(
            vstd::utf8::encode_utf8(s),
        )[k] as int,
        '0' <= full_hash(s)[2 * k] <= '9' || 'a' <= full_hash(s)[2 * k] <= 'f',
        '0' <= full_hash(s)[2 * k + 1] <= '9' || 'a' <= full_hash(s)[2 * k + 1] <= 'f',
{
    let d = sha256_digest(vstd::utf8::encode_utf8(s));
    assert((2 * k) / 2 == k && (2 * k + 1) / 2 == k);
    assert(short_hash(s) =~= full_hash(s).subrange(0, 16));
    let b = d[k] as int;
    assert(0 <= b / 16 < 16 && 0 <= b % 16 < 16 && 16 * (b / 16) + b % 16 == b);
}

/// Instants are ordered by their seconds, then by their nanoseconds: of two one is before the other, or
/// they are the same.
pub proof fn law_instants_are_ordered(a: Timestamp, b: Timestamp)
    ensures
        a.before(b) <==> a.secs < b.secs || a.secs == b.secs && a.nanos < b.nanos,
        a.before(b) ==> !b.before(a),
        !a.before(b) && !b.before(a) ==> a == b,
{
}

/// Outside leap seconds the time from one instant to another is the difference of what they count.
pub proof fn law_time_passes_in_nanoseconds(a: Timestamp, b: Timestamp)
    requires
        a.nanos < 1_000_000_000,
        b.nanos < 1_000_000_000,
    ensures
        a.nanos_since(b) == (a.secs * 1_000_000_000 + a.nanos) - (b.secs * 1_000_000_000 + b.nanos),
{
}

/// Time passes the same forwards and backwards, leap seconds and all.
pub proof fn law_time_passes_both_ways(a: Timestamp, b: Timestamp)
    ensures
        a.nanos_since(b) == -b.nanos_since(a),
        a.nanos_since(a) == 0,
{
    let x = a.secs - b.secs + a.leap_between(b);
    assert(b.secs - a.secs + b.leap_between(a) == -x);
    assert(x * 1_000_000_000 == -((-x) * 1_000_000_000)) by (nonlinear_arith);
}

/// Between two instants of which the one that is earlier in its day is in a leap second, that second
/// is counted.
pub proof fn law_a_leap_second_is_counted(a: Timestamp, b: Timestamp)
    requires
        b.nanos >= 1_000_000_000,
        a.nanos < 1_000_000_000,
    ensures
        a.secs as int % 86_400 > b.secs as int % 86_400 ==> a.nanos_since(b) == (a.secs - b.secs + 1)
            * 1_000_000_000 + a.nanos - b.nanos,
        a.secs as int % 86_400 <= b.secs as int % 86_400 ==> a.nanos_since(b) == (a.secs - b.secs)
            * 1_000_000_000 + a.nanos - b.nanos,
{
}


/// A day begins at its midnight, a whole number of days from the Unix epoch, whose day is the 719163rd of
/// the calendar.
pub proof fn law_days_begin_at_midnight(day: i32)
    ensures
        midnight_of(719_163) == (Timestamp { secs: 0, nanos: 0 }),
        midnight_of(day).nanos == 0,
        midnight_of(day).secs == (day - 719_163) * 86_400,
        day < i32::MAX ==> midnight_of((day + 1) as i32).secs == midnight_of(day).secs + 86_400,
{
}

/// A span's whole seconds and milliseconds are those that fit in it, as far as 64 bits can count.
pub proof fn law_spans_are_counted_in_full(d: Duration)
    ensures
        d.millis <= u64::MAX ==> d.capped_millis() == d.millis,
        d.millis <= u64::MAX ==> 1000 * d.secs() <= d.millis < 1000 * d.secs() + 1000,
        d.millis > u64::MAX ==> d.capped_millis() == u64::MAX,
        d.secs() <= u64::MAX,
        d.millis >= 1000 * (u64::MAX as int) ==> d.secs() == u64::MAX,
{
}

} // verus!
