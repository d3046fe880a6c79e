//! What cursors and fingerprints promise.

use vstd::prelude::*;

use crate::cursor::{
    base64_bytes, lemma_payload_is_flat, marked, payload, payload_names, payload_value,
    request_text, token_value, CursorView, CURSOR_VERSION,
};
use crate::json::{member, JsonView};
use crate::text::{pieces, trimmed};
use crate::text_laws::law_separators_part_a_text;
use crate::wire_laws::holds;

verus! {

/// A cursor's payload has every field under its own name, and says what the cursor says when it is read.
pub proof fn law_the_members_of_a_payload(c: CursorView)
    requires
        0 <= c.v <= 255,
        0 <= c.f <= usize::MAX,
        0 <= c.i <= usize::MAX,
        0 <= c.n <= usize::MAX,
        c.s matches Some(k) ==> i64::MIN <= k <= i64::MAX,
    ensures
        payload(c)->Obj_0.len() == 6,
        holds(payload(c), "v"@, JsonView::Int(c.v)),
        holds(payload(c), "fp"@, JsonView::Str(c.fp)),
        holds(payload(c), "f"@, JsonView::Int(c.f)),
        holds(payload(c), "i"@, JsonView::Int(c.i)),
        holds(payload(c), "n"@, JsonView::Int(c.n)),
        c.s is None ==> holds(payload(c), "s"@, JsonView::Null),
        c.s matches Some(k) ==> holds(payload(c), "s"@, JsonView::Int(k)),
        payload_value(payload(c)) == Some(c),
{
    lemma_payload_is_flat(c);
    let m = payload(c)->Obj_0;
    assert(m[0] == ("v"@, JsonView::Int(c.v)));
    assert(m[1] == ("fp"@, JsonView::Str(c.fp)));
    assert(m[2] == ("f"@, JsonView::Int(c.f)));
    assert(m[3] == ("i"@, JsonView::Int(c.i)));
    assert(m[4] == ("n"@, JsonView::Int(c.n)));
    assert(m[5] == (
        "s"@,
        match c.s {
            Some(k) => JsonView::Int(k),
            None => JsonView::Null,
        },
    ));
}

/// A cursor is accepted only where its payload can be read and is of version 1, and then says what the
/// payload says; every other token is refused.
pub proof fn law_other_cursors_are_refused(token: Seq<char>)
    ensures
        CURSOR_VERSION == 1,
        base64_bytes(trimmed(token)) is None ==> token_value(token) is Err,
        base64_bytes(trimmed(token)) matches Some(b) ==> {
            let j = crate::record::record_in(b, payload_names());
            &&& token_value(token) is Ok <==> (j matches Some(p) && (payload_value(p) matches Some(c) && c.v
                == 1))
            &&& token_value(token) matches Ok(c) ==> payload_value(j->Some_0) == Some(c)
        },
{
}

/// A token that says something gives the cursor that it says, and any other a usage error with the reason.
pub proof fn law_tokens_are_read_or_refused(
    r: Result<crate::cursor::Cursor, crate::error::RssError>,
    want: Result<CursorView, Seq<char>>,
)
    requires
        crate::cursor::gives_cursor(r, want),
    ensures
        want is Ok ==> r is Ok && r->Ok_0@ == want->Ok_0,
        want is Err ==> (r matches Err(crate::error::RssError::Usage(m)) && m@ == want->Err_0),
{
}

/// A payload is a cursor exactly where its version is a byte, its fingerprint a text, its positions
/// sizes and its cutoff, if it has one, a 64-bit number; each is read from the member of its own name,
/// and so it says what the cursor says.
pub proof fn law_a_payload_is_read_by_name(j: JsonView, c: CursorView)
    requires
        j is Obj,
    ensures
        payload_value(j) == Some(c) <==> {
            &&& member(j, "v"@) == Some(JsonView::Int(c.v)) && 0 <= c.v <= 255
            &&& member(j, "fp"@) == Some(JsonView::Str(c.fp))
            &&& member(j, "f"@) == Some(JsonView::Int(c.f)) && 0 <= c.f <= usize::MAX
            &&& member(j, "i"@) == Some(JsonView::Int(c.i)) && 0 <= c.i <= usize::MAX
            &&& member(j, "n"@) == Some(JsonView::Int(c.n)) && 0 <= c.n <= usize::MAX
            &&& match c.s {
                Some(k) => member(j, "s"@) == Some(JsonView::Int(k)) && i64::MIN <= k <= i64::MAX,
                None => member(j, "s"@) is None || member(j, "s"@) == Some(JsonView::Null),
            }
        },
{
}

proof fn lemma_marked(parts: Seq<Seq<char>>, mark: char)
    requires
        forall|k: int| 0 <= k < parts.len() ==> !(#[trigger] parts[k]).contains(mark),
    ensures
        pieces(marked(parts, mark), mark) == parts.push(Seq::empty()),
        parts.len() > 0 ==> marked(parts, mark).len() > 0 && marked(parts, mark).last() == mark && pieces(
            marked(parts, mark).drop_last(),
            mark,
        ) == parts,
    decreases parts.len(),
{
    let e = Seq::<char>::empty();
    assert(pieces(e, mark) =~= seq![e]);
    if parts.len() == 0 {
        assert(parts.push(e) =~= seq![e]);
    } else {
        let d = parts.drop_last();
        let x = parts.last();
        assert(parts[parts.len() - 1] == x);
        assert forall|k: int| 0 <= k < d.len() implies !(#[trigger] d[k]).contains(mark) by {
            assert(d[k] == parts[k]);
        }
        lemma_marked(d, mark);
        let m = marked(d, mark);
        let whole = marked(parts, mark);
        assert(whole == m + x.push(mark));
        assert(whole.drop_last() =~= m + x);
        law_separators_part_a_text(x, e, mark);
        assert(x.push(mark) + e =~= x.push(mark));
        if d.len() == 0 {
            assert(m =~= e);
            assert(m + x =~= x);
            assert(whole =~= x.push(mark));
            assert(seq![x] =~= parts);
            assert(seq![x] + seq![e] =~= parts.push(e));
        } else {
            let n = m.drop_last();
            assert(n.push(mark) =~= m);
            law_separators_part_a_text(n, x, mark);
            law_separators_part_a_text(n, x.push(mark), mark);
            assert(n.push(mark) + x =~= m + x);
            assert(n.push(mark) + x.push(mark) =~= whole);
            assert(d + seq![x] =~= parts);
            assert(d + (seq![x] + seq![e]) =~= parts.push(e));
        }
    }
}

/// Every URL and every argument counts in a request's fingerprint, with its place: two requests that are
/// written out alike have the same URLs in the same order and the same arguments.
pub proof fn law_every_argument_counts(
    urls: Seq<Seq<char>>,
    parts: Seq<Seq<char>>,
    more_urls: Seq<Seq<char>>,
    more_parts: Seq<Seq<char>>,
)
    requires
        request_text(urls, parts) == request_text(more_urls, more_parts),
        forall|k: int| 0 <= k < urls.len() ==> is_plain(#[trigger] urls[k]),
        forall|k: int| 0 <= k < parts.len() ==> is_plain(#[trigger] parts[k]),
        forall|k: int| 0 <= k < more_urls.len() ==> is_plain(#[trigger] more_urls[k]),
        forall|k: int| 0 <= k < more_parts.len() ==> is_plain(#[trigger] more_parts[k]),
    ensures
        urls == more_urls,
        parts == more_parts,
{
    let a = marked(urls, '\n');
    let b = marked(more_urls, '\n');
    let c = marked(parts, '\u{1f}');
    let d = marked(more_parts, '\u{1f}');
    lemma_no_mark(urls, '\n', '\u{1e}');
    lemma_no_mark(more_urls, '\n', '\u{1e}');
    let s = request_text(urls, parts);
    assert(s[a.len() as int] == '\u{1e}');
    assert(s[b.len() as int] == '\u{1e}');
    if a.len() < b.len() {
        assert(b[a.len() as int] == '\u{1e}');
        assert(b.contains('\u{1e}'));
    }
    if b.len() < a.len() {
        assert(a[b.len() as int] == '\u{1e}');
        assert(a.contains('\u{1e}'));
    }
    assert(s.take(a.len() as int) =~= a);
    assert(s.take(a.len() as int) =~= b);
    assert(s.skip((a.len() + 1) as int) =~= c);
    assert(s.skip((a.len() + 1) as int) =~= d);
    lemma_marked(urls, '\n');
    lemma_marked(more_urls, '\n');
    lemma_marked(parts, '\u{1f}');
    lemma_marked(more_parts, '\u{1f}');
    let e = Seq::<char>::empty();
    assert(urls.push(e).drop_last() =~= urls);
    assert(more_urls.push(e).drop_last() =~= more_urls);
    assert(parts.push(e).drop_last() =~= parts);
    assert(more_parts.push(e).drop_last() =~= more_parts);
}

/// The text holds none of the marks by which a request is written out.
pub open spec fn is_plain(s: Seq<char>) -> bool {
    !s.contains('\n') && !s.contains('\u{1e}') && !s.contains('\u{1f}')
}

proof fn lemma_no_mark(parts: Seq<Seq<char>>, mark: char, other: char)
    requires
        mark != other,
        forall|k: int| 0 <= k < parts.len() ==> !(#[trigger] parts[k]).contains(other),
    ensures
        !marked(parts, mark).contains(other),
    decreases parts.len(),
{
    if parts.len() > 0 {
        let d = parts.drop_last();
        let x = parts.last();
        assert(parts[parts.len() - 1] == x);
        assert forall|k: int| 0 <= k < d.len() implies !(#[trigger] d[k]).contains(other) by {
            assert(d[k] == parts[k]);
        }
        lemma_no_mark(d, mark, other);
        let m = marked(d, mark);
        let s = m + x.push(mark);
        if s.contains(other) {
            let k = choose|k: int| 0 <= k < s.len() && s[k] == other;
            if k < m.len() {
                assert(m[k] == other);
            } else if k < m.len() + x.len() {
                assert(x[k - m.len()] == other);
            }
        }
    }
}

} // verus!
