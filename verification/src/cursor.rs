//! Opaque continuation cursors. Paging is stateless: a cursor says where to resume, and carries
//! a fingerprint of the request that it was made for.

use base64::Engine;
use vstd::prelude::*;
use vstd::string::*;
use vstd::utf8::*;

use crate::error::RssError;
use crate::hash::hash_prefix;
use crate::json::{get, lemma_obj_members, put, to_compact, Json};
use crate::record::read_record;
use crate::text::{number_text, trim};

verus! {

/// Version of the cursor's payload.
pub const CURSOR_VERSION: u8 = 1;

/// Where a continuation resumes.
#[derive(Debug, Clone)]
pub struct Cursor {
    /// Payload version.
    pub v: u8,
    /// Fingerprint of the request this cursor was made for.
    pub fp: String,
    /// Index into the request's URL list where the next page resumes.
    pub f: usize,
    /// Index into that feed's items where the next page resumes.
    pub i: usize,
    /// How many items that feed held when this cursor was made.
    pub n: usize,
    /// The resolved `since` cutoff in epoch seconds, so that every page filters alike.
    pub s: Option<i64>,
}

/// What a cursor says.
pub struct CursorView {
    pub v: int,
    pub fp: Seq<char>,
    pub f: int,
    pub i: int,
    pub n: int,
    pub s: Option<int>,
}

/// What `base64`'s URL-safe, unpadded engine writes for some bytes.
pub uninterp spec fn base64_text(bytes: Seq<u8>) -> Seq<char>;

/// What `base64`'s URL-safe, unpadded engine reads in a text, if it is such a text.
pub uninterp spec fn base64_bytes(s: Seq<char>) -> Option<Seq<u8>>;

/// A character of the URL-safe alphabet.
pub open spec fn is_url_safe(c: char) -> bool {
    'a' <= c <= 'z' || 'A' <= c <= 'Z' || '0' <= c <= '9' || c == '-' || c == '_'
}

/// The length of unpadded base64: four characters for three bytes, rounded up.
pub open spec fn base64_width(bytes: nat) -> nat {
    (4 * bytes + 2) / 3
}

/// `base64`'s `URL_SAFE_NO_PAD.encode`: a text over the URL-safe alphabet, four characters for three
/// bytes, which decodes to the bytes again.
#[verifier::external_body]
fn base64_encode(bytes: &[u8]) -> (r: String)
    ensures
        r@ == base64_text(bytes@),
        forall|k: int| 0 <= k < r@.len() ==> is_url_safe(#[trigger] r@[k]),
        r@.len() == base64_width(bytes@.len()),
        base64_bytes(r@) == Some(bytes@),
{
    base64::engine::general_purpose::URL_SAFE_NO_PAD.encode(bytes)
}

/// `base64`'s `URL_SAFE_NO_PAD.decode`: the bytes that the text encodes, if it encodes any.
#[verifier::external_body]
fn base64_decode(s: &str) -> (r: Option<Vec<u8>>)
    ensures
        match r {
            Some(b) => base64_bytes(s@) == Some(b@),
            None => base64_bytes(s@) is None,
        },
{
    base64::engine::general_purpose::URL_SAFE_NO_PAD.decode(s).ok()
}

/// A cursor's payload.
pub open spec fn payload(c: CursorView) -> crate::json::JsonView {
    crate::json::JsonView::Obj(
        seq![
            ("v"@, crate::json::JsonView::Int(c.v)),
            ("fp"@, crate::json::JsonView::Str(c.fp)),
            ("f"@, crate::json::JsonView::Int(c.f)),
            ("i"@, crate::json::JsonView::Int(c.i)),
            ("n"@, crate::json::JsonView::Int(c.n)),
            (
                "s"@,
                match c.s {
                    Some(k) => crate::json::JsonView::Int(k),
                    None => crate::json::JsonView::Null,
                },
            ),
        ],
    )
}

/// The names of a payload's fields.
pub open spec fn payload_names() -> Seq<Seq<char>> {
    seq!["v"@, "fp"@, "f"@, "i"@, "n"@, "s"@]
}

fn field_names() -> (r: Vec<String>)
    ensures
        r.deep_view() == payload_names(),
{
    let mut r: Vec<String> = Vec::new();
    r.push("v".to_owned());
    r.push("fp".to_owned());
    r.push("f".to_owned());
    r.push("i".to_owned());
    r.push("n".to_owned());
    r.push("s".to_owned());
    assert(r.deep_view() =~= payload_names());
    r
}

/// The length of a cursor's token, where its fingerprint is ASCII.
pub open spec fn token_width(c: CursorView) -> nat {
    base64_width(crate::json::compact_width(payload(c)->Obj_0))
}

/// A number between two bounds.
pub open spec fn number_in(j: Option<crate::json::JsonView>, lo: int, hi: int) -> Option<int> {
    match j {
        Some(crate::json::JsonView::Int(n)) => if lo <= n <= hi {
            Some(n)
        } else {
            None
        },
        _ => None,
    }
}

/// What the six fields of a payload say, if they are a cursor's.
pub open spec fn fields_value(
    v: Option<crate::json::JsonView>,
    fp: Option<crate::json::JsonView>,
    f: Option<crate::json::JsonView>,
    i: Option<crate::json::JsonView>,
    n: Option<crate::json::JsonView>,
    s: Option<crate::json::JsonView>,
) -> Option<CursorView> {
    let size = usize::MAX as int;
    let cutoff_ok = s is None || s == Some(crate::json::JsonView::Null) || number_in(
        s,
        i64::MIN as int,
        i64::MAX as int,
    ) is Some;
    match (number_in(v, 0, 255), fp, number_in(f, 0, size), number_in(i, 0, size), number_in(n, 0, size)) {
        (Some(v), Some(crate::json::JsonView::Str(fp)), Some(f), Some(i), Some(n)) => if cutoff_ok {
            Some(CursorView { v, fp, f, i, n, s: number_in(s, i64::MIN as int, i64::MAX as int) })
        } else {
            None
        },
        _ => None,
    }
}

/// What a payload says, if it is a cursor's: an object with the six fields, of which the cutoff may
/// be absent, or a list of the six.
pub open spec fn payload_value(j: crate::json::JsonView) -> Option<CursorView> {
    match j {
        crate::json::JsonView::Obj(m) => fields_value(
            crate::json::member(j, "v"@),
            crate::json::member(j, "fp"@),
            crate::json::member(j, "f"@),
            crate::json::member(j, "i"@),
            crate::json::member(j, "n"@),
            crate::json::member(j, "s"@),
        ),
        crate::json::JsonView::Arr(a) => if a.len() == 6 {
            fields_value(Some(a[0]), Some(a[1]), Some(a[2]), Some(a[3]), Some(a[4]), Some(a[5]))
        } else {
            None
        },
        _ => None,
    }
}

/// What is said of a cursor of another version.
pub open spec fn version_fault(v: int) -> Seq<char> {
    "unsupported cursor version "@ + crate::text::decimal(v as nat)
        + " (this server emits version 1); re-request without a cursor"@
}

/// What a token says once its payload has been read, or why it says nothing.
pub open spec fn checked_payload(j: Option<crate::json::JsonView>) -> Result<CursorView, Seq<char>> {
    match j {
        None => Err("invalid cursor: malformed payload"@),
        Some(j) => match payload_value(j) {
            None => Err("invalid cursor: malformed payload"@),
            Some(c) => if c.v == CURSOR_VERSION {
                Ok(c)
            } else {
                Err(version_fault(c.v))
            },
        },
    }
}

/// What a token says, or why it says nothing.
pub open spec fn token_value(token: Seq<char>) -> Result<CursorView, Seq<char>> {
    match base64_bytes(crate::text::trimmed(token)) {
        None => Err("invalid cursor: not a valid token"@),
        Some(b) => checked_payload(crate::record::record_in(b, payload_names())),
    }
}

/// The result is the cursor wanted, or a usage error with the message wanted.
pub open spec fn gives_cursor(r: Result<Cursor, RssError>, want: Result<CursorView, Seq<char>>) -> bool {
    match (r, want) {
        (Ok(a), Ok(b)) => a@ == b,
        (Err(RssError::Usage(m)), Err(t)) => m@ == t,
        _ => false,
    }
}

fn number(j: Option<&Json>, lo: i128, hi: i128) -> (r: Option<i128>)
    ensures
        match r {
            Some(n) => number_in(opt_view(j), lo as int, hi as int) == Some(n as int),
            None => number_in(opt_view(j), lo as int, hi as int) is None,
        },
{
    let n: i128 = match j {
        Some(Json::Int(n)) => *n as i128,
        Some(Json::UInt(n)) => *n as i128,
        _ => {
            return None;
        },
    };
    if lo <= n && n <= hi {
        Some(n)
    } else {
        None
    }
}

/// An optional JSON value, as mathematics.
pub open spec fn opt_view(j: Option<&Json>) -> Option<crate::json::JsonView> {
    match j {
        Some(x) => Some(x@),
        None => None,
    }
}

fn read_fields(
    v: Option<&Json>,
    fp: Option<&Json>,
    f: Option<&Json>,
    i: Option<&Json>,
    n: Option<&Json>,
    s: Option<&Json>,
) -> (r: Option<Cursor>)
    ensures
        match r {
            Some(c) => fields_value(
                opt_view(v),
                opt_view(fp),
                opt_view(f),
                opt_view(i),
                opt_view(n),
                opt_view(s),
            ) == Some(c@),
            None => fields_value(
                opt_view(v),
                opt_view(fp),
                opt_view(f),
                opt_view(i),
                opt_view(n),
                opt_view(s),
            ) is None,
        },
{
    let size: i128 = usize::MAX as i128;
    let cutoff = number(s, i64::MIN as i128, i64::MAX as i128);
    let cutoff_ok = match s {
        None => true,
        Some(Json::Null) => true,
        _ => cutoff.is_some(),
    };
    match (number(v, 0, 255), fp, number(f, 0, size), number(i, 0, size), number(n, 0, size)) {
        (Some(v), Some(Json::Str(fp)), Some(f), Some(i), Some(n)) => if cutoff_ok {
            Some(
                Cursor {
                    v: v as u8,
                    fp: fp.clone(),
                    f: f as usize,
                    i: i as usize,
                    n: n as usize,
                    s: match cutoff {
                        Some(k) => Some(k as i64),
                        None => None,
                    },
                },
            )
        } else {
            None
        },
        _ => None,
    }
}

pub(crate) proof fn lemma_payload_is_flat(c: CursorView)
    requires
        0 <= c.v <= 255,
        0 <= c.f <= usize::MAX,
        0 <= c.i <= usize::MAX,
        0 <= c.n <= usize::MAX,
        c.s matches Some(k) ==> i64::MIN <= k <= i64::MAX,
    ensures
        crate::json::is_flat_record(payload(c)),
        payload_value(payload(c)) == Some(c),
{
    reveal_strlit("v");
    reveal_strlit("fp");
    reveal_strlit("f");
    reveal_strlit("i");
    reveal_strlit("n");
    reveal_strlit("s");
    let m = payload(c)->Obj_0;
    assert("v"@[0] == 'v' && "f"@[0] == 'f' && "i"@[0] == 'i' && "n"@[0] == 'n' && "s"@[0] == 's'
        && "fp"@[0] == 'f');
    assert forall|a: int, b: int| 0 <= a < b < m.len() implies (#[trigger] m[a]).0 != (
    #[trigger] m[b]).0 by {
        assert(m[a].0.len() != m[b].0.len() || m[a].0[0] != m[b].0[0]);
    }
    reveal_with_fuel(crate::json::member_in, 7);
    assert(m.skip(1)[0] == m[1]);
    assert(m.skip(1).skip(1) =~= m.skip(2));
    assert(m.skip(2).skip(1) =~= m.skip(3));
    assert(m.skip(3).skip(1) =~= m.skip(4));
    assert(m.skip(4).skip(1) =~= m.skip(5));
    assert(crate::json::member_in(m, "v"@) == Some(m[0].1));
    assert(crate::json::member_in(m, "fp"@) == Some(m[1].1));
    assert(crate::json::member_in(m, "f"@) == Some(m[2].1));
    assert(crate::json::member_in(m, "i"@) == Some(m[3].1));
    assert(crate::json::member_in(m, "n"@) == Some(m[4].1));
    assert(crate::json::member_in(m, "s"@) == Some(m[5].1));
}

proof fn lemma_bytes_of_text(s: Seq<char>)
    requires
        s.len() > 0,
    ensures
        encode_utf8(s).len() > 0,
{
    encode_utf8_decode_utf8(s);
    if encode_utf8(s).len() == 0 {
        assert(encode_utf8(s) =~= encode_utf8(Seq::empty()));
        encode_utf8_decode_utf8(Seq::empty());
    }
}

proof fn lemma_payload_is_ascii(c: CursorView)
    requires
        is_ascii_chars(c.fp),
    ensures
        crate::json::is_ascii_record(payload(c)->Obj_0),
{
    reveal_strlit("v");
    reveal_strlit("fp");
    reveal_strlit("f");
    reveal_strlit("i");
    reveal_strlit("n");
    reveal_strlit("s");
    assert("fp"@[0] == 'f' && "fp"@[1] == 'p');
    let m = payload(c)->Obj_0;
    assert forall|a: int| 0 <= a < m.len() implies is_ascii_chars((#[trigger] m[a]).0) by {
        assert(m[a].0.len() == 1 || m[a].0 == "fp"@);
    }
}

proof fn lemma_url_safe_is_trimmed(s: Seq<char>)
    requires
        forall|k: int| 0 <= k < s.len() ==> is_url_safe(#[trigger] s[k]),
    ensures
        crate::text::trimmed(s) == s,
{
    if s.len() > 0 {
        assert(is_url_safe(s[0]));
        assert(is_url_safe(s.last()));
    }
}

impl Cursor {
    /// What the cursor says.
    pub open spec fn view(&self) -> CursorView {
        CursorView {
            v: self.v as int,
            fp: self.fp@,
            f: self.f as int,
            i: self.i as int,
            n: self.n as int,
            s: match self.s {
                Some(k) => Some(k as int),
                None => None,
            },
        }
    }

    /// The cursor as a URL-safe, unpadded token. Decoding the token of a cursor of this version
    /// gives the cursor back.
    pub fn encode(&self) -> (r: String)
        ensures
            r@ == base64_text(encode_utf8(crate::json::compact_text(crate::json::kept(payload(self@))))),
            forall|k: int| 0 <= k < r@.len() ==> is_url_safe(#[trigger] r@[k]),
            r@.len() > 0,
            is_ascii_chars(self.fp@) ==> r@.len() == token_width(self@),
            self.v == CURSOR_VERSION ==> token_value(r@) == Ok::<CursorView, Seq<char>>(self@),
            self.v != CURSOR_VERSION ==> token_value(r@) == Err::<CursorView, Seq<char>>(
                version_fault(self.v as int),
            ),
    {
        broadcast use lemma_obj_members;

        let mut m: Vec<(String, Json)> = Vec::new();
        assert(crate::json::members(m@) =~= Seq::empty());
        put(&mut m, "v", Json::UInt(self.v as u64));
        put(&mut m, "fp", Json::Str(self.fp.clone()));
        put(&mut m, "f", Json::UInt(self.f as u64));
        put(&mut m, "i", Json::UInt(self.i as u64));
        put(&mut m, "n", Json::UInt(self.n as u64));
        put(
            &mut m,
            "s",
            match self.s {
                Some(k) => Json::Int(k),
                None => Json::Null,
            },
        );
        let j = Json::Obj(m);
        assert(crate::json::members(m@) =~= payload(self@)->Obj_0);
        let text = to_compact(&j);
        let token = base64_encode(text.as_str().as_bytes());
        proof {
            lemma_payload_is_flat(self@);
            let f = payload(self@)->Obj_0;
            assert(payload_names() =~= f.map_values(|x: (Seq<char>, crate::json::JsonView)| x.0));
            crate::record::lemma_record_reads_back(encode_utf8(text@), f, payload_names());
            lemma_url_safe_is_trimmed(token@);
            lemma_bytes_of_text(text@);
            if is_ascii_chars(self.fp@) {
                lemma_payload_is_ascii(self@);
                is_ascii_chars_encode_utf8(text@);
            }
        }
        token
    }

    /// The cursor that a payload holds.
    pub fn from_payload(j: Option<Json>) -> (r: Result<Cursor, RssError>)
        ensures
            gives_cursor(
                r,
                checked_payload(
                    match j {
                        Some(x) => Some(x@),
                        None => None,
                    },
                ),
            ),
    {
        broadcast use {lemma_obj_members, crate::json::lemma_arr_elements};

        let malformed = RssError::Usage("invalid cursor: malformed payload".to_owned());
        let j = match j {
            Some(j) => j,
            None => {
                return Err(malformed);
            },
        };
        let read = match &j {
            Json::Obj(_) => read_fields(
                get(&j, "v"),
                get(&j, "fp"),
                get(&j, "f"),
                get(&j, "i"),
                get(&j, "n"),
                get(&j, "s"),
            ),
            Json::Arr(a) => if a.len() == 6 {
                read_fields(
                    Some(&a[0]),
                    Some(&a[1]),
                    Some(&a[2]),
                    Some(&a[3]),
                    Some(&a[4]),
                    Some(&a[5]),
                )
            } else {
                None
            },
            _ => None,
        };
        match read {
            None => Err(malformed),
            Some(c) => if c.v == CURSOR_VERSION {
                Ok(c)
            } else {
                Err(
                    RssError::Usage(
                        "unsupported cursor version ".to_owned().concat(
                            &number_text(c.v as u64),
                        ).concat(" (this server emits version 1); re-request without a cursor"),
                    ),
                )
            },
        }
    }

    /// The cursor that a token holds.
    pub fn decode(token: &str) -> (r: Result<Cursor, RssError>)
        ensures
            gives_cursor(r, token_value(token@)),
    {
        match base64_decode(trim(token).as_str()) {
            None => Err(RssError::Usage("invalid cursor: not a valid token".to_owned())),
            Some(b) => Cursor::from_payload(read_record(b.as_slice(), &field_names())),
        }
    }
}

/// White space around a token does not matter.
pub proof fn law_a_token_may_be_padded(token: Seq<char>, padded: Seq<char>)
    requires
        crate::text::trimmed(padded) == crate::text::trimmed(token),
    ensures
        token_value(padded) == token_value(token),
{
}

/// Every text followed by a mark.
pub open spec fn marked(parts: Seq<Seq<char>>, mark: char) -> Seq<char>
    decreases parts.len(),
{
    if parts.len() == 0 {
        Seq::empty()
    } else {
        marked(parts.drop_last(), mark) + parts.last().push(mark)
    }
}

/// A request, written out: its URLs a line each, then its arguments.
pub open spec fn request_text(urls: Seq<Seq<char>>, parts: Seq<Seq<char>>) -> Seq<char> {
    marked(urls, '\n') + seq!['\u{1e}'] + marked(parts, '\u{1f}')
}

fn append_marked(out: &mut String, parts: &Vec<String>, mark: char)
    ensures
        final(out)@ == old(out)@ + marked(parts.deep_view(), mark),
{
    let mut k: usize = 0;
    assert(parts.deep_view().take(0) =~= Seq::empty());
    assert(out@ + Seq::<char>::empty() =~= out@);
    while k < parts.len()
        invariant
            k <= parts@.len(),
            out@ == old(out)@ + marked(parts.deep_view().take(k as int), mark),
        decreases parts@.len() - k,
    {
        out.append(parts[k].as_str());
        out.push(mark);
        proof {
            let t = parts.deep_view().take(k + 1);
            assert(t.drop_last() =~= parts.deep_view().take(k as int));
            assert(t.last() == parts@[k as int]@);
            assert(out@ =~= old(out)@ + marked(t, mark));
        }
        k = k + 1;
    }
    assert(parts.deep_view().take(k as int) =~= parts.deep_view());
}

/// A fingerprint of a request: its URLs in order, and its arguments as the client sent them.
pub fn fingerprint(urls: &Vec<String>, parts: &Vec<String>) -> (r: String)
    ensures
        r@ == crate::hash::short_hash(request_text(urls.deep_view(), parts.deep_view())),
        crate::hash::is_short_hash(r@),
{
    let mut t = String::new();
    append_marked(&mut t, urls, '\n');
    t.push('\u{1e}');
    append_marked(&mut t, parts, '\u{1f}');
    assert(t@ =~= request_text(urls.deep_view(), parts.deep_view()));
    hash_prefix(t.as_str())
}

} // verus!
