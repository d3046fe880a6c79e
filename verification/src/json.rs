//! JSON values, and their printing and parsing by `serde_json`.

use serde_json::Value;
use vstd::prelude::*;
use vstd::string::*;
use vstd::utf8::*;

use crate::text::same;

verus! {

/// A JSON value. An object keeps its members in order.
pub enum JsonView {
    Null,
    Bool(bool),
    Int(int),
    /// A number that is no 64-bit integer: its text and the bits of its nearest double.
    Real(Seq<char>, u64),
    Str(Seq<char>),
    Arr(Seq<JsonView>),
    Obj(Seq<(Seq<char>, JsonView)>),
}

/// A JSON value that code can hold.
#[derive(Debug)]
pub enum Json {
    Null,
    Bool(bool),
    Int(i64),
    UInt(u64),
    Real(String, u64),
    Str(String),
    Arr(Vec<Json>),
    Obj(Vec<(String, Json)>),
}

impl Json {
    /// The value, as mathematics.
    pub open spec fn view(&self) -> JsonView
        decreases self,
    {
        match self {
            Json::Null => JsonView::Null,
            Json::Bool(b) => JsonView::Bool(*b),
            Json::Int(n) => JsonView::Int(*n as int),
            Json::UInt(n) => JsonView::Int(*n as int),
            Json::Real(s, bits) => JsonView::Real(s@, *bits),
            Json::Str(s) => JsonView::Str(s@),
            Json::Arr(v) => JsonView::Arr(
                Seq::new(
                    v@.len(),
                    |i: int|
                        if 0 <= i < v@.len() {
                            v@[i].view()
                        } else {
                            JsonView::Null
                        },
                ),
            ),
            Json::Obj(v) => JsonView::Obj(
                Seq::new(
                    v@.len(),
                    |i: int|
                        if 0 <= i < v@.len() {
                            (v@[i].0@, v@[i].1.view())
                        } else {
                            (Seq::empty(), JsonView::Null)
                        },
                ),
            ),
        }
    }

    /// A value equal to this one.
    pub fn copy(&self) -> (r: Json)
        ensures
            r@ == self@,
        decreases self,
    {
        match self {
            Json::Null => Json::Null,
            Json::Bool(b) => Json::Bool(*b),
            Json::Int(n) => Json::Int(*n),
            Json::UInt(n) => Json::UInt(*n),
            Json::Real(s, bits) => Json::Real(s.clone(), *bits),
            Json::Str(s) => Json::Str(s.clone()),
            Json::Arr(v) => {
                let mut out: Vec<Json> = Vec::new();
                let mut i: usize = 0;
                while i < v.len()
                    invariant
                        i <= v@.len(),
                        out@.len() == i,
                        self == Json::Arr(*v),
                        forall|k: int| 0 <= k < i ==> #[trigger] out@[k]@ == v@[k]@,
                    decreases v@.len() - i,
                {
                    proof {
                        assert(decreases_to!(*self => self->Arr_0));
                        assert(decreases_to!(v@ => v@[i as int]));
                    }
                    out.push(v[i].copy());
                    i = i + 1;
                }
                proof {
                    lemma_arr_elements(out);
                    lemma_arr_elements(*v);
                    assert(elements(out@) =~= elements(v@));
                }
                Json::Arr(out)
            },
            Json::Obj(v) => {
                let mut out: Vec<(String, Json)> = Vec::new();
                let mut i: usize = 0;
                while i < v.len()
                    invariant
                        i <= v@.len(),
                        out@.len() == i,
                        self == Json::Obj(*v),
                        forall|k: int|
                            0 <= k < i ==> (#[trigger] out@[k]).0@ == v@[k].0@ && out@[k].1@
                                == v@[k].1@,
                    decreases v@.len() - i,
                {
                    proof {
                        assert(decreases_to!(*self => self->Obj_0));
                        assert(decreases_to!(v@ => v@[i as int]));
                        assert(decreases_to!(v@[i as int] => v@[i as int].1));
                    }
                    out.push((v[i].0.clone(), v[i].1.copy()));
                    i = i + 1;
                }
                assert(Json::Obj(out)@->Obj_0 =~= self@->Obj_0);
                Json::Obj(out)
            },
        }
    }
}

impl Clone for Json {
    fn clone(&self) -> (r: Self)
        ensures
            r@ == self@,
    {
        self.copy()
    }
}

/// The members of an object under construction.
pub open spec fn members(f: Seq<(String, Json)>) -> Seq<(Seq<char>, JsonView)> {
    f.map_values(|p: (String, Json)| (p.0@, p.1@))
}

/// The members make up the object.
pub broadcast proof fn lemma_obj_members(f: Vec<(String, Json)>)
    ensures
        (#[trigger] Json::Obj(f)@) == JsonView::Obj(members(f@)),
{
    assert(Json::Obj(f)@->Obj_0 =~= members(f@));
}

/// The elements of an array.
pub open spec fn elements(v: Seq<Json>) -> Seq<JsonView> {
    v.map_values(|j: Json| j@)
}

/// The elements make up the array.
pub broadcast proof fn lemma_arr_elements(v: Vec<Json>)
    ensures
        (#[trigger] Json::Arr(v)@) == JsonView::Arr(elements(v@)),
{
    assert(Json::Arr(v)@->Arr_0 =~= elements(v@));
}

/// Adds a member to an object under construction.
pub fn put(f: &mut Vec<(String, Json)>, name: &str, value: Json)
    ensures
        members(final(f)@) == members(old(f)@).push((name@, value@)),
{
    f.push((name.to_owned(), value));
    assert(members(f@) =~= members(old(f)@).push((name@, value@)));
}

/// A text or `null`.
pub open spec fn text_or_null(s: Option<Seq<char>>) -> JsonView {
    match s {
        Some(t) => JsonView::Str(t),
        None => JsonView::Null,
    }
}

/// A text or `null`.
pub fn json_opt_text(s: &Option<String>) -> (r: Json)
    ensures
        r@ == text_or_null(s.deep_view()),
{
    match s {
        Some(t) => Json::Str(t.clone()),
        None => Json::Null,
    }
}

/// A number or `null`.
pub open spec fn number_or_null(n: Option<u64>) -> JsonView {
    match n {
        Some(k) => JsonView::Int(k as int),
        None => JsonView::Null,
    }
}

/// A number or `null`.
pub fn json_opt_number(n: Option<u64>) -> (r: Json)
    ensures
        r@ == number_or_null(n),
{
    match n {
        Some(k) => Json::UInt(k),
        None => Json::Null,
    }
}

/// A number or `null`.
pub open spec fn size_or_null(n: Option<usize>) -> JsonView {
    match n {
        Some(k) => JsonView::Int(k as int),
        None => JsonView::Null,
    }
}

/// A number or `null`.
pub fn json_opt_size(n: Option<usize>) -> (r: Json)
    ensures
        r@ == size_or_null(n),
{
    match n {
        Some(k) => Json::UInt(k as u64),
        None => Json::Null,
    }
}

/// A list of texts.
pub open spec fn text_list(v: Seq<Seq<char>>) -> JsonView {
    JsonView::Arr(v.map_values(|s: Seq<char>| JsonView::Str(s)))
}

/// A list of texts.
pub fn json_text_list(v: &Vec<String>) -> (r: Json)
    ensures
        r@ == text_list(v.deep_view()),
{
    broadcast use lemma_arr_elements;

    let mut out: Vec<Json> = Vec::new();
    let mut i: usize = 0;
    while i < v.len()
        invariant
            i <= v@.len(),
            out@.len() == i,
            forall|k: int| 0 <= k < i ==> #[trigger] out@[k]@ == JsonView::Str(v@[k]@),
        decreases v@.len() - i,
    {
        out.push(Json::Str(v[i].clone()));
        i = i + 1;
    }
    assert(elements(out@) =~= v.deep_view().map_values(|s: Seq<char>| JsonView::Str(s)));
    Json::Arr(out)
}

/// The tree of `serde_json`.
#[verifier::external_type_specification]
#[verifier::external_body]
pub struct ExValue(serde_json::Value);

/// What a `serde_json::Value` holds.
pub uninterp spec fn contents(v: serde_json::Value) -> JsonView;

/// What `serde_json::from_slice` reads in some bytes, if they are one JSON value.
pub uninterp spec fn read_json(bytes: Seq<u8>) -> Option<JsonView>;

/// An object's members once another is put into it: where its name is there already, its value takes
/// the place of the one before.
pub open spec fn inserted(f: Seq<(Seq<char>, JsonView)>, m: (Seq<char>, JsonView)) -> Seq<
    (Seq<char>, JsonView),
> {
    if exists|i: int| 0 <= i < f.len() && (#[trigger] f[i]).0 == m.0 {
        f.map_values(
            |x: (Seq<char>, JsonView)|
                if x.0 == m.0 {
                    m
                } else {
                    x
                },
        )
    } else {
        f.push(m)
    }
}

/// What a tree that is made of a value holds: its lists element by element, its objects member by
/// member, and of a number that is no 64-bit integer what its text reads as.
pub open spec fn kept(j: JsonView) -> JsonView
    decreases j,
{
    match j {
        JsonView::Real(text, _) => match read_json(encode_utf8(text)) {
            Some(v) => v,
            None => JsonView::Null,
        },
        JsonView::Arr(x) => JsonView::Arr(
            Seq::new(
                x.len(),
                |i: int|
                    if 0 <= i < x.len() {
                        kept(x[i])
                    } else {
                        JsonView::Null
                    },
            ),
        ),
        JsonView::Obj(f) => JsonView::Obj(kept_members(f)),
        _ => j,
    }
}

/// What the tree of an object with these members has as its members: they are put into it one after
/// the other.
pub open spec fn kept_members(f: Seq<(Seq<char>, JsonView)>) -> Seq<(Seq<char>, JsonView)>
    decreases f,
{
    if f.len() == 0 {
        Seq::empty()
    } else {
        inserted(kept_members(f.drop_last()), (f[f.len() - 1].0, kept(f[f.len() - 1].1)))
    }
}

/// The members have different names.
pub open spec fn distinct_names(f: Seq<(Seq<char>, JsonView)>) -> bool {
    forall|a: int, b: int| 0 <= a < b < f.len() ==> (#[trigger] f[a]).0 != (#[trigger] f[b]).0
}

/// An object whose members have different names and hold `null`, booleans, 64-bit integers or
/// texts.
pub open spec fn is_flat_record(j: JsonView) -> bool {
    match j {
        JsonView::Obj(f) => {
            &&& distinct_names(f)
            &&& forall|a: int|
                0 <= a < f.len() ==> match (#[trigger] f[a]).1 {
                    JsonView::Null => true,
                    JsonView::Bool(_) => true,
                    JsonView::Int(n) => i64::MIN <= n <= u64::MAX,
                    JsonView::Str(_) => true,
                    _ => false,
                }
        },
        _ => false,
    }
}

/// The tree of an object with different names holds what its members keep.
pub proof fn lemma_kept_object(f: Seq<(Seq<char>, JsonView)>)
    requires
        distinct_names(f),
    ensures
        kept(JsonView::Obj(f)) == JsonView::Obj(
            f.map_values(|m: (Seq<char>, JsonView)| (m.0, kept(m.1))),
        ),
    decreases f.len(),
{
    let g = f.map_values(|m: (Seq<char>, JsonView)| (m.0, kept(m.1)));
    if f.len() > 0 {
        let before = f.drop_last();
        assert forall|a: int, b: int| 0 <= a < b < before.len() implies (#[trigger] before[a]).0 != (
        #[trigger] before[b]).0 by {
            assert(f[a].0 != f[b].0);
        }
        lemma_kept_object(before);
        let h = kept_members(before);
        assert forall|i: int| 0 <= i < h.len() implies (#[trigger] h[i]).0 != f.last().0 by {
            assert(f[i].0 != f[f.len() - 1].0);
        }
        let m = (f[f.len() - 1].0, kept(f[f.len() - 1].1));
        assert(inserted(h, m) == h.push(m));
        assert(h.push(m) =~= g);
        assert(kept_members(f) == g);
    } else {
        assert(g =~= kept_members(f));
    }
    assert(kept(JsonView::Obj(f)) == JsonView::Obj(kept_members(f)));
}

/// The tree of a list holds what its elements keep.
pub proof fn lemma_kept_list(x: Seq<JsonView>)
    ensures
        kept(JsonView::Arr(x)) == JsonView::Arr(x.map_values(|e: JsonView| kept(e))),
{
    assert(kept(JsonView::Arr(x))->Arr_0 =~= x.map_values(|e: JsonView| kept(e)));
}

/// The tree of a flat record holds the record itself.
pub proof fn lemma_flat_is_kept(j: JsonView)
    requires
        is_flat_record(j),
    ensures
        kept(j) == j,
{
    let f = j->Obj_0;
    lemma_kept_object(f);
    assert forall|i: int| 0 <= i < f.len() implies (f[i].0, kept(f[i].1)) == #[trigger] f[i] by {
        assert(kept(f[i].1) == f[i].1);
    }
    assert(f.map_values(|m: (Seq<char>, JsonView)| (m.0, kept(m.1))) =~= f);
}

/// The constructors of `serde_json::Value`: the tree holds what `kept` says. A list is collected in
/// order; an object is collected into an insertion-ordered map, where the value of a name that
/// comes again takes the place of the one before; the text of a number that is no 64-bit integer is
/// read by `serde_json`.
#[verifier::external_body]
fn tree_of(j: &Json) -> (r: serde_json::Value)
    ensures
        contents(r) == kept(j@),
{
    match j {
        Json::Null => serde_json::Value::Null,
        Json::Bool(b) => serde_json::Value::Bool(*b),
        Json::Int(n) => serde_json::Value::from(*n),
        Json::UInt(n) => serde_json::Value::from(*n),
        Json::Real(s, _) => serde_json::from_str(s).unwrap_or_default(),
        Json::Str(s) => serde_json::Value::String(s.clone()),
        Json::Arr(v) => v.iter().map(tree_of).collect(),
        Json::Obj(v) => v.iter().map(|(k, x)| (k.clone(), tree_of(x))).collect(),
    }
}

/// The variants of `serde_json::Value`, told apart: the result is what the tree holds.
#[verifier::external_body]
fn json_of(v: serde_json::Value) -> (r: Json)
    ensures
        r@ == contents(v),
{
    match v {
        Value::Null => Json::Null,
        Value::Bool(b) => Json::Bool(b),
        Value::Number(n) => match (n.as_u64(), n.as_i64()) {
            (Some(u), _) => Json::UInt(u),
            (_, Some(i)) => Json::Int(i),
            _ => Json::Real(n.to_string(), n.as_f64().map_or(u64::MAX, |x| x.to_bits())),
        },
        Value::String(s) => Json::Str(s),
        Value::Array(a) => Json::Arr(a.into_iter().map(json_of).collect()),
        Value::Object(o) => Json::Obj(o.into_iter().map(|(k, x)| (k, json_of(x))).collect()),
    }
}

/// A list is a part of another: some of its elements, in order.
pub open spec fn is_part(x: Seq<JsonView>, y: Seq<JsonView>) -> bool
    decreases y.len(),
{
    if x.len() == 0 {
        true
    } else if y.len() == 0 {
        false
    } else {
        (x.last() == y.last() && is_part(x.drop_last(), y.drop_last())) || is_part(x, y.drop_last())
    }
}

/// The second value is the first, or a part of the list that the first is.
pub open spec fn is_thinner_value(a: JsonView, b: JsonView) -> bool {
    a == b || (a matches JsonView::Arr(x) && b matches JsonView::Arr(y) && is_part(y, x))
}

/// The second object is the first with elements of its lists left out.
pub open spec fn thins(a: JsonView, b: JsonView) -> bool {
    match (a, b) {
        (JsonView::Obj(f), JsonView::Obj(g)) => {
            &&& f.len() == g.len()
            &&& forall|i: int|
                0 <= i < f.len() ==> (#[trigger] f[i]).0 == g[i].0 && is_thinner_value(
                    f[i].1,
                    g[i].1,
                )
        },
        _ => false,
    }
}

/// A list is a part of itself.
pub proof fn lemma_part_of_itself(x: Seq<JsonView>)
    ensures
        is_part(x, x),
    decreases x.len(),
{
    if x.len() > 0 {
        lemma_part_of_itself(x.drop_last());
    }
}

/// How many characters a character takes up inside a JSON text.
pub open spec fn char_width(c: char) -> nat {
    if c == '"' || c == '\\' || c == '\u{8}' || c == '\t' || c == '\n' || c == '\u{c}' || c == '\r' {
        2
    } else if (c as u32) < 32 {
        6
    } else {
        1
    }
}

/// How many characters the first `n` characters of a text take up inside a JSON text.
pub open spec fn chars_width(s: Seq<char>, n: int) -> nat
    decreases n,
{
    if n <= 0 {
        0
    } else {
        chars_width(s, n - 1) + char_width(s[n - 1])
    }
}

/// How many characters a text takes up, with its quotes.
pub open spec fn text_width(s: Seq<char>) -> nat {
    chars_width(s, s.len() as int) + 2
}

/// How many characters a number takes up.
pub open spec fn number_width(n: int) -> nat {
    if n < 0 {
        1 + crate::text::decimal((-n) as nat).len()
    } else {
        crate::text::decimal(n as nat).len()
    }
}

/// How many characters the value of a flat record's member takes up.
pub open spec fn value_width(j: JsonView) -> nat {
    match j {
        JsonView::Null => 4,
        JsonView::Bool(b) => if b {
            4
        } else {
            5
        },
        JsonView::Int(n) => number_width(n),
        JsonView::Str(s) => text_width(s),
        _ => 0,
    }
}

/// How many characters the names and values of a flat record's first `n` members take up.
pub open spec fn members_width(f: Seq<(Seq<char>, JsonView)>, n: int) -> nat
    decreases n,
{
    if n <= 0 {
        0
    } else {
        members_width(f, n - 1) + text_width(f[n - 1].0) + value_width(f[n - 1].1)
    }
}

/// The length of the indented text of a flat record that has members: each on a line of its own,
/// indented by two, with `": "` and, but for the last, a comma; and a line for each brace.
pub open spec fn pretty_width(f: Seq<(Seq<char>, JsonView)>) -> nat {
    members_width(f, f.len() as int) + 6 * f.len() + 2
}

/// The length of the one-line text of a flat record that has members.
pub open spec fn compact_width(f: Seq<(Seq<char>, JsonView)>) -> nat {
    members_width(f, f.len() as int) + 2 * f.len() + 1
}

/// `null`, or a flat record that has members.
pub open spec fn is_slot(j: JsonView) -> bool {
    j is Null || (is_flat_record(j) && j->Obj_0.len() > 0)
}

/// How many characters such a value takes up as a member: each of a record's lines but the first is
/// indented by two more.
pub open spec fn slot_width(j: JsonView) -> nat {
    match j {
        JsonView::Obj(f) => pretty_width(f) + 2 * (f.len() + 1),
        _ => 4,
    }
}

/// The object with another value in its member `i`.
pub open spec fn with_value(j: JsonView, i: int, v: JsonView) -> JsonView {
    JsonView::Obj(j->Obj_0.update(i, (j->Obj_0[i].0, v)))
}

/// What `serde_json::to_string_pretty` prints for a tree: two-space indented JSON.
pub uninterp spec fn pretty_text(j: JsonView) -> Seq<char>;

/// How many characters the indented JSON of a value takes up at a depth: each element of a list and
/// each member of an object stands on a line of its own, indented by two more per level, and so does
/// the closing bracket; a member's name is followed by `": "`, and every element and member but the
/// last by a comma. An empty list or object is its two brackets.
pub open spec fn layout_width(j: JsonView, d: int) -> int
    decreases j, 0int,
{
    match j {
        JsonView::Real(text, _) => text.len() as int,
        JsonView::Arr(x) => if x.len() == 0 {
            2
        } else {
            elements_width(x, d + 1, x.len() as int) + x.len() * (2 * d + 4) + 2 * d + 2
        },
        JsonView::Obj(f) => if f.len() == 0 {
            2
        } else {
            fields_width(f, d + 1, f.len() as int) + f.len() * (2 * d + 6) + 2 * d + 2
        },
        _ => value_width(j) as int,
    }
}

/// How many characters the first `n` elements of a list take up at a depth.
pub open spec fn elements_width(x: Seq<JsonView>, d: int, n: int) -> int
    decreases x, n,
{
    if n <= 0 || n > x.len() {
        0
    } else {
        elements_width(x, d, n - 1) + layout_width(x[n - 1], d)
    }
}

/// How many characters the names and values of an object's first `n` members take up at a depth.
pub open spec fn fields_width(f: Seq<(Seq<char>, JsonView)>, d: int, n: int) -> int
    decreases f, n,
{
    if n <= 0 || n > f.len() {
        0
    } else {
        fields_width(f, d, n - 1) + text_width(f[n - 1].0) + layout_width(f[n - 1].1, d)
    }
}

/// An object's members are no narrower further in.
pub proof fn lemma_fields_deeper(f: Seq<(Seq<char>, JsonView)>, d: int, e: int, n: int)
    requires
        0 <= d <= e,
        n <= f.len(),
    ensures
        0 <= fields_width(f, d, n) <= fields_width(f, e, n),
    decreases f, n,
{
    if n > 0 {
        lemma_fields_deeper(f, d, e, n - 1);
        lemma_deeper(f[n - 1].1, d, e);
    }
}

proof fn lemma_elements_deeper(x: Seq<JsonView>, d: int, e: int, n: int)
    requires
        0 <= d <= e,
        n <= x.len(),
    ensures
        0 <= elements_width(x, d, n) <= elements_width(x, e, n),
    decreases x, n,
{
    if n > 0 {
        lemma_elements_deeper(x, d, e, n - 1);
        lemma_deeper(x[n - 1], d, e);
    }
}

/// A value is no narrower further in.
pub proof fn lemma_deeper(j: JsonView, d: int, e: int)
    requires
        0 <= d <= e,
    ensures
        0 <= layout_width(j, d) <= layout_width(j, e),
    decreases j, 0int,
{
    match j {
        JsonView::Arr(x) => {
            lemma_elements_deeper(x, d + 1, e + 1, x.len() as int);
            assert(0 <= x.len() * (2 * d + 4) <= x.len() * (2 * e + 4)) by (nonlinear_arith)
                requires
                    0 <= d <= e,
                    x.len() >= 0,
            ;
        },
        JsonView::Obj(f) => {
            lemma_fields_deeper(f, d + 1, e + 1, f.len() as int);
            assert(0 <= f.len() * (2 * d + 6) <= f.len() * (2 * e + 6)) by (nonlinear_arith)
                requires
                    0 <= d <= e,
                    f.len() >= 0,
            ;
        },
        _ => {},
    }
}

/// Members that are each no narrower take up no fewer characters, and where one of them is wider,
/// that many more.
pub proof fn lemma_wider_fields(
    f: Seq<(Seq<char>, JsonView)>,
    d: int,
    g: Seq<(Seq<char>, JsonView)>,
    e: int,
    n: int,
    at: int,
    more: int,
)
    requires
        0 <= n <= f.len(),
        f.len() == g.len(),
        0 <= at < f.len(),
        forall|i: int|
            0 <= i < f.len() ==> (#[trigger] f[i]).0 == g[i].0 && layout_width(f[i].1, d) + (if i
                == at {
                more
            } else {
                0
            }) <= layout_width(g[i].1, e),
    ensures
        fields_width(f, d, n) + (if at < n {
            more
        } else {
            0
        }) <= fields_width(g, e, n),
    decreases n,
{
    if n > 0 {
        lemma_wider_fields(f, d, g, e, n - 1, at, more);
        assert(f[n - 1].0 == g[n - 1].0);
    }
}

/// Members that are each no narrower take up no fewer characters.
pub proof fn lemma_no_narrower_fields(
    f: Seq<(Seq<char>, JsonView)>,
    d: int,
    g: Seq<(Seq<char>, JsonView)>,
    e: int,
)
    requires
        f.len() == g.len(),
        forall|i: int|
            0 <= i < f.len() ==> (#[trigger] f[i]).0 == g[i].0 && layout_width(f[i].1, d)
                <= layout_width(g[i].1, e),
    ensures
        fields_width(f, d, f.len() as int) <= fields_width(g, e, g.len() as int),
{
    if f.len() > 0 {
        lemma_wider_fields(f, d, g, e, f.len() as int, 0, 0);
    }
}

proof fn lemma_same_elements(x: Seq<JsonView>, y: Seq<JsonView>, d: int, n: int)
    requires
        n <= x.len(),
        n <= y.len(),
        forall|i: int| 0 <= i < n ==> x[i] == y[i],
    ensures
        elements_width(x, d, n) == elements_width(y, d, n),
    decreases n,
{
    if n > 0 {
        lemma_same_elements(x, y, d, n - 1);
    }
}

/// The width of a list's elements is that of all but the last, and of the last.
pub proof fn lemma_last_element(x: Seq<JsonView>, d: int)
    requires
        x.len() > 0,
    ensures
        elements_width(x, d, x.len() as int) == elements_width(x.drop_last(), d, x.len() - 1)
            + layout_width(x.last(), d),
{
    lemma_same_elements(x, x.drop_last(), d, x.len() - 1);
}

proof fn lemma_part_is_narrower(x: Seq<JsonView>, y: Seq<JsonView>, d: int)
    requires
        is_part(x, y),
        0 <= d,
    ensures
        x.len() <= y.len(),
        elements_width(x, d, x.len() as int) <= elements_width(y, d, y.len() as int),
    decreases y.len(),
{
    if x.len() == 0 {
        lemma_elements_deeper(y, d, d, y.len() as int);
    } else {
        lemma_last_element(x, d);
        lemma_last_element(y, d);
        lemma_deeper(y.last(), d, d);
        if x.last() == y.last() && is_part(x.drop_last(), y.drop_last()) {
            lemma_part_is_narrower(x.drop_last(), y.drop_last(), d);
        } else {
            lemma_part_is_narrower(x, y.drop_last(), d);
        }
    }
}

/// An object with elements of its lists left out is no wider.
pub proof fn lemma_thinner_is_narrower(a: JsonView, b: JsonView)
    requires
        thins(a, b),
    ensures
        layout_width(b, 0) <= layout_width(a, 0),
{
    let (f, g) = (a->Obj_0, b->Obj_0);
    assert forall|i: int| 0 <= i < f.len() implies (#[trigger] g[i]).0 == f[i].0 && layout_width(
        g[i].1,
        1,
    ) <= layout_width(f[i].1, 1) by {
        assert(f[i].0 == g[i].0);
        if f[i].1 != g[i].1 {
            let (x, y) = (f[i].1->Arr_0, g[i].1->Arr_0);
            lemma_part_is_narrower(y, x, 2);
            lemma_elements_deeper(x, 2, 2, x.len() as int);
            assert(0 <= y.len() * (2 * 1 + 4) <= x.len() * (2 * 1 + 4)) by (nonlinear_arith)
                requires
                    y.len() <= x.len(),
            ;
            assert(x.len() > 0 ==> x.len() * (2 * 1 + 4) >= 6) by (nonlinear_arith);
        }
    }
    lemma_no_narrower_fields(g, 1, f, 1);
}

proof fn lemma_flat_fields(f: Seq<(Seq<char>, JsonView)>, d: int, n: int)
    requires
        is_flat_record(JsonView::Obj(f)),
        n <= f.len(),
    ensures
        fields_width(f, d, n) == members_width(f, n),
    decreases n,
{
    if n > 0 {
        lemma_flat_fields(f, d, n - 1);
        assert(layout_width(f[n - 1].1, d) == value_width(f[n - 1].1));
    }
}

/// A flat record is as wide as its members make it.
pub proof fn lemma_flat_layout(f: Seq<(Seq<char>, JsonView)>)
    requires
        is_flat_record(JsonView::Obj(f)),
        f.len() > 0,
    ensures
        layout_width(JsonView::Obj(f), 0) == pretty_width(f),
{
    lemma_flat_fields(f, 1, f.len() as int);
    assert(f.len() * (2 * 0 + 6) == 6 * f.len()) by (nonlinear_arith);
}

proof fn lemma_slot_layout(v: JsonView)
    requires
        is_slot(v),
    ensures
        layout_width(v, 1) == slot_width(v),
{
    match v {
        JsonView::Obj(f) => {
            lemma_flat_fields(f, 2, f.len() as int);
        },
        _ => {},
    }
}

proof fn lemma_updated_fields(f: Seq<(Seq<char>, JsonView)>, d: int, i: int, v: JsonView, n: int)
    requires
        0 <= i < f.len(),
        n <= f.len(),
    ensures
        fields_width(f.update(i, (f[i].0, v)), d, n) == fields_width(f, d, n) + (if i < n {
            layout_width(v, d) - layout_width(f[i].1, d)
        } else {
            0
        }),
    decreases n,
{
    if n > 0 {
        lemma_updated_fields(f, d, i, v, n - 1);
    }
}

/// Another value in one member changes an object's width by as much as the value is wider.
pub proof fn lemma_value_changes_width(j: JsonView, i: int, v: JsonView)
    requires
        j is Obj,
        0 <= i < j->Obj_0.len(),
        is_slot(j->Obj_0[i].1),
        is_slot(v),
    ensures
        layout_width(with_value(j, i, v), 0) + slot_width(j->Obj_0[i].1) == layout_width(j, 0)
            + slot_width(v),
{
    let f = j->Obj_0;
    lemma_updated_fields(f, 1, i, v, f.len() as int);
    lemma_slot_layout(v);
    lemma_slot_layout(f[i].1);
}

/// `serde_json::to_string_pretty` on a tree, which does not fail: its text depends on what the
/// tree holds alone, and is as long as the layout of indented JSON makes it. The text of a flat
/// record has the record's members, and reading their names and values gives them back.
#[verifier::external_body]
fn print_pretty(v: &serde_json::Value) -> (r: String)
    ensures
        r@ == pretty_text(contents(*v)),
        r@.len() == layout_width(contents(*v), 0),
        is_flat_record(contents(*v)) ==> crate::record::holds_record(encode_utf8(r@), contents(*v)->Obj_0),
{
    serde_json::to_string_pretty(v).unwrap_or_default()
}

/// What `serde_json::to_string` prints for a tree: JSON on one line.
pub uninterp spec fn compact_text(j: JsonView) -> Seq<char>;

/// The names and texts of a flat record are ASCII.
pub open spec fn is_ascii_record(f: Seq<(Seq<char>, JsonView)>) -> bool {
    forall|a: int|
        0 <= a < f.len() ==> is_ascii_chars((#[trigger] f[a]).0) && (f[a].1 matches JsonView::Str(s)
            ==> is_ascii_chars(s))
}

/// The text has no line feed in it.
pub open spec fn is_one_line(s: Seq<char>) -> bool {
    forall|k: int| 0 <= k < s.len() ==> #[trigger] s[k] != '\n'
}

/// `serde_json::to_string` on a tree, which does not fail: its text depends on what the tree
/// holds alone, and has no line feed in it. That of a flat record with members is as long as the
/// record is wide, and ASCII where the record is. The text of a flat record has the record's members,
/// and reading their names and values gives them back.
#[verifier::external_body]
fn print_compact(v: &serde_json::Value) -> (r: String)
    ensures
        r@ == compact_text(contents(*v)),
        is_one_line(r@),
        is_flat_record(contents(*v)) && contents(*v)->Obj_0.len() > 0 ==> r@.len() == compact_width(
            contents(*v)->Obj_0,
        ) && (is_ascii_record(contents(*v)->Obj_0) ==> is_ascii_chars(r@)),
        is_flat_record(contents(*v)) ==> crate::record::holds_record(encode_utf8(r@), contents(*v)->Obj_0),
{
    serde_json::to_string(v).unwrap_or_default()
}

/// `serde_json::from_slice` into a tree: what the bytes hold, or nothing where they are not JSON.
#[verifier::external_body]
fn read_tree(bytes: &[u8]) -> (r: Option<serde_json::Value>)
    ensures
        match r {
            Some(v) => read_json(bytes@) == Some(contents(v)),
            None => read_json(bytes@) is None,
        },
{
    serde_json::from_slice(bytes).ok()
}

/// A value's JSON text, indented.
pub fn to_pretty(j: &Json) -> (r: String)
    ensures
        r@ == pretty_text(kept(j@)),
        r@.len() == layout_width(kept(j@), 0),
        is_flat_record(j@) ==> crate::record::holds_record(encode_utf8(r@), j@->Obj_0),
{
    proof {
        if is_flat_record(j@) {
            lemma_flat_is_kept(j@);
        }
    }
    print_pretty(&tree_of(j))
}

/// A value's JSON text, on one line.
pub fn to_compact(j: &Json) -> (r: String)
    ensures
        r@ == compact_text(kept(j@)),
        is_one_line(r@),
        is_flat_record(j@) && j@->Obj_0.len() > 0 ==> r@.len() == compact_width(j@->Obj_0) && (
        is_ascii_record(j@->Obj_0) ==> is_ascii_chars(r@)),
        is_flat_record(j@) ==> crate::record::holds_record(encode_utf8(r@), j@->Obj_0),
{
    proof {
        if is_flat_record(j@) {
            lemma_flat_is_kept(j@);
        }
    }
    print_compact(&tree_of(j))
}

/// The JSON value that the bytes hold.
pub fn from_bytes(bytes: &[u8]) -> (r: Option<Json>)
    ensures
        match r {
            Some(j) => read_json(bytes@) == Some(j@),
            None => read_json(bytes@) is None,
        },
{
    match read_tree(bytes) {
        Some(v) => Some(json_of(v)),
        None => None,
    }
}

/// The JSON value that the text holds.
pub fn from_text(s: &str) -> (r: Option<Json>)
    ensures
        match r {
            Some(j) => read_json(encode_utf8(s@)) == Some(j@),
            None => read_json(encode_utf8(s@)) is None,
        },
{
    from_bytes(s.as_bytes())
}

/// The member called `name`, if an object has one.
pub open spec fn member(j: JsonView, name: Seq<char>) -> Option<JsonView> {
    match j {
        JsonView::Obj(f) => member_in(f, name),
        _ => None,
    }
}

/// The first member called `name`.
pub open spec fn member_in(f: Seq<(Seq<char>, JsonView)>, name: Seq<char>) -> Option<JsonView>
    decreases f.len(),
{
    if f.len() == 0 {
        None
    } else if f[0].0 == name {
        Some(f[0].1)
    } else {
        member_in(f.skip(1), name)
    }
}

/// The member called `name`, if the value is an object that has one.
pub fn get<'a>(j: &'a Json, name: &str) -> (r: Option<&'a Json>)
    ensures
        match r {
            Some(v) => member(j@, name@) == Some(v@),
            None => member(j@, name@) is None,
        },
{
    broadcast use lemma_obj_members;

    match j {
        Json::Obj(f) => {
            let mut i: usize = 0;
            assert(members(f@).skip(0) =~= members(f@));
            while i < f.len()
                invariant
                    i <= f@.len(),
                    j@ == JsonView::Obj(members(f@)),
                    member(j@, name@) == member_in(members(f@).skip(i as int), name@),
                decreases f@.len() - i,
            {
                assert(members(f@).skip(i as int)[0] == members(f@)[i as int]);
                if same(f[i].0.as_str(), name) {
                    return Some(&f[i].1);
                }
                assert(members(f@).skip(i as int).skip(1) =~= members(f@).skip(i + 1));
                i = i + 1;
            }
            None
        },
        _ => None,
    }
}

} // verus!
