//! JSON records that are read by the names of their fields: a field that comes twice is a fault, and
//! what other members hold does not matter.

use vstd::prelude::*;

use crate::json::{from_bytes, Json, JsonView};
use crate::text::same;

verus! {

/// Whether `serde_json::from_slice` reads some bytes as a JSON value that it then leaves aside.
pub uninterp spec fn is_json_text(bytes: Seq<u8>) -> bool;

/// `serde_json::from_slice` into `serde::de::IgnoredAny`: whether the bytes are one JSON value.
#[verifier::external_body]
fn is_json(bytes: &[u8]) -> (r: bool)
    ensures
        r == is_json_text(bytes@),
{
    serde_json::from_slice::<serde::de::IgnoredAny>(bytes).is_ok()
}

/// The white space of JSON.
pub open spec fn is_space(b: u8) -> bool {
    b == 0x20 || b == 0x09 || b == 0x0a || b == 0x0d
}

/// The end of the white space that stands at `i`.
pub open spec fn space_end(b: Seq<u8>, i: int) -> int
    decreases b.len() - i,
{
    if 0 <= i < b.len() && is_space(b[i]) {
        space_end(b, i + 1)
    } else {
        i
    }
}

/// Just past the quote that ends a text, from within it.
pub open spec fn text_end(b: Seq<u8>, i: int) -> int
    decreases b.len() - i,
{
    if i >= b.len() {
        b.len() as int
    } else if b[i] == 0x22 {
        i + 1
    } else if b[i] == 0x5c {
        if i + 2 < b.len() {
            text_end(b, i + 2)
        } else {
            b.len() as int
        }
    } else {
        text_end(b, i + 1)
    }
}

/// The end of the value that stands at `i`, from within `depth` brackets of it: the comma or bracket
/// that follows it.
pub open spec fn value_end(b: Seq<u8>, i: int, depth: nat) -> int
    decreases b.len() - i,
{
    if i >= b.len() {
        b.len() as int
    } else {
        proof {
            lemma_text_end(b, i + 1);
        }
        if b[i] == 0x22 {
            value_end(b, text_end(b, i + 1), depth)
        } else if b[i] == 0x7b || b[i] == 0x5b {
            value_end(b, i + 1, depth + 1)
        } else if depth == 0 && (b[i] == 0x2c || b[i] == 0x7d || b[i] == 0x5d) {
            i
        } else if b[i] == 0x7d || b[i] == 0x5d {
            value_end(b, i + 1, (depth - 1) as nat)
        } else {
            value_end(b, i + 1, depth)
        }
    }
}

/// What comes past a text lies further on, within the bytes.
pub proof fn lemma_text_end(b: Seq<u8>, i: int)
    ensures
        text_end(b, i) <= b.len(),
        text_end(b, i) > i || text_end(b, i) == b.len(),
    decreases b.len() - i,
{
    if i < b.len() && b[i] != 0x22 {
        if b[i] == 0x5c {
            if i + 2 < b.len() {
                lemma_text_end(b, i + 2);
            }
        } else {
            lemma_text_end(b, i + 1);
        }
    }
}

/// The end of a value lies further on, within the bytes.
pub proof fn lemma_value_end(b: Seq<u8>, i: int, depth: nat)
    ensures
        value_end(b, i, depth) <= b.len(),
        value_end(b, i, depth) >= i || value_end(b, i, depth) == b.len(),
    decreases b.len() - i,
{
    if i < b.len() {
        lemma_text_end(b, i + 1);
        if b[i] == 0x22 {
            lemma_value_end(b, text_end(b, i + 1), depth);
        } else if b[i] == 0x7b || b[i] == 0x5b {
            lemma_value_end(b, i + 1, depth + 1);
        } else if depth == 0 && (b[i] == 0x2c || b[i] == 0x7d || b[i] == 0x5d) {
        } else if b[i] == 0x7d || b[i] == 0x5d {
            lemma_value_end(b, i + 1, (depth - 1) as nat);
        } else {
            lemma_value_end(b, i + 1, depth);
        }
    }
}

/// The end of white space lies further on, within the bytes.
pub proof fn lemma_space_end(b: Seq<u8>, i: int)
    requires
        0 <= i <= b.len(),
    ensures
        i <= space_end(b, i) <= b.len(),
    decreases b.len() - i,
{
    if i < b.len() && is_space(b[i]) {
        lemma_space_end(b, i + 1);
    }
}

/// The members of an object from `i` on, where a member or the end of the object stands: their names
/// and values as they are written.
pub open spec fn members_from(b: Seq<u8>, i: int) -> Seq<(Seq<u8>, Seq<u8>)>
    decreases b.len() - i,
{
    if !(0 <= i <= b.len()) {
        Seq::empty()
    } else {
        proof {
            lemma_space_end(b, i);
        }
        let a = space_end(b, i);
        if a >= b.len() || b[a] != 0x22 {
            Seq::empty()
        } else {
            proof {
                lemma_text_end(b, a + 1);
                lemma_space_end(b, text_end(b, a + 1));
            }
            let e = text_end(b, a + 1);
            let c = space_end(b, e);
            if c >= b.len() {
                Seq::empty()
            } else {
                proof {
                    lemma_value_end(b, c + 1, 0);
                }
                let z = value_end(b, c + 1, 0);
                seq![(b.subrange(a, e), b.subrange(c + 1, z))] + (if z < b.len() && b[z] == 0x2c {
                    members_from(b, z + 1)
                } else {
                    Seq::empty()
                })
            }
        }
    }
}

/// The bytes begin an object.
pub open spec fn opens_object(b: Seq<u8>) -> bool {
    space_end(b, 0) < b.len() && b[space_end(b, 0)] == 0x7b
}

/// The members of the object that the bytes are.
pub open spec fn members_in(b: Seq<u8>) -> Seq<(Seq<u8>, Seq<u8>)> {
    members_from(b, space_end(b, 0) + 1)
}

/// The bytes are a record with these members, each once and in order.
pub open spec fn holds_record(b: Seq<u8>, f: Seq<(Seq<char>, JsonView)>) -> bool {
    let m = members_in(b);
    &&& is_json_text(b)
    &&& opens_object(b)
    &&& m.len() == f.len()
    &&& forall|i: int|
        0 <= i < m.len() ==> crate::json::read_json((#[trigger] m[i]).0) == Some(
            JsonView::Str(f[i].0),
        ) && crate::json::read_json(m[i].1) == Some(f[i].1)
}

/// The members with their names read; nothing where one of the names cannot be read.
pub open spec fn named(m: Seq<(Seq<u8>, Seq<u8>)>) -> Option<Seq<(Seq<char>, Seq<u8>)>>
    decreases m.len(),
{
    if m.len() == 0 {
        Some(Seq::empty())
    } else {
        match (named(m.drop_last()), crate::json::read_json(m.last().0)) {
            (Some(before), Some(JsonView::Str(name))) => Some(before.push((name, m.last().1))),
            _ => None,
        }
    }
}

/// What is written as the value of a field: nothing where there is none; a fault where there is more
/// than one.
pub open spec fn written_as(m: Seq<(Seq<char>, Seq<u8>)>, name: Seq<char>) -> Result<
    Option<Seq<u8>>,
    (),
>
    decreases m.len(),
{
    if m.len() == 0 {
        Ok(None)
    } else if m.last().0 != name {
        written_as(m.drop_last(), name)
    } else {
        match written_as(m.drop_last(), name) {
            Ok(None) => Ok(Some(m.last().1)),
            _ => Err(()),
        }
    }
}

/// The fields that some members are, in the order of their names; nothing where one comes twice or
/// has a value that cannot be read.
pub open spec fn fields_in(m: Seq<(Seq<char>, Seq<u8>)>, names: Seq<Seq<char>>) -> Option<
    Seq<(Seq<char>, JsonView)>,
>
    decreases names.len(),
{
    if names.len() == 0 {
        Some(Seq::empty())
    } else {
        match (fields_in(m, names.drop_last()), written_as(m, names.last())) {
            (Some(before), Ok(None)) => Some(before),
            (Some(before), Ok(Some(b))) => match crate::json::read_json(b) {
                Some(j) => Some(before.push((names.last(), j))),
                None => None,
            },
            _ => None,
        }
    }
}

/// What some bytes hold, read for the fields with these names: of an object, its fields alone; of
/// another value, the value.
pub open spec fn record_in(bytes: Seq<u8>, names: Seq<Seq<char>>) -> Option<JsonView> {
    if !opens_object(bytes) {
        crate::json::read_json(bytes)
    } else if !is_json_text(bytes) {
        None
    } else {
        match named(members_in(bytes)) {
            Some(m) => match fields_in(m, names) {
                Some(f) => Some(JsonView::Obj(f)),
                None => None,
            },
            None => None,
        }
    }
}

/// The bytes of a record, read for its own fields, hold the record.
pub proof fn lemma_record_reads_back(b: Seq<u8>, f: Seq<(Seq<char>, JsonView)>, names: Seq<Seq<char>>)
    requires
        holds_record(b, f),
        crate::json::distinct_names(f),
        names == f.map_values(|m: (Seq<char>, JsonView)| m.0),
    ensures
        record_in(b, names) == Some(JsonView::Obj(f)),
{
    let raw = members_in(b);
    let m = Seq::new(raw.len(), |i: int| (f[i].0, raw[i].1));
    lemma_named(raw, f, raw.len() as int);
    assert(raw.take(raw.len() as int) =~= raw);
    assert(m.take(m.len() as int) =~= m);
    lemma_fields(m, f, names, f.len() as int);
    assert(names.take(names.len() as int) =~= names);
    assert(f.take(f.len() as int) =~= f);
}

proof fn lemma_named(raw: Seq<(Seq<u8>, Seq<u8>)>, f: Seq<(Seq<char>, JsonView)>, n: int)
    requires
        0 <= n <= raw.len(),
        raw.len() == f.len(),
        forall|i: int|
            0 <= i < raw.len() ==> crate::json::read_json((#[trigger] raw[i]).0) == Some(
                JsonView::Str(f[i].0),
            ),
    ensures
        named(raw.take(n)) == Some(Seq::new(raw.len(), |i: int| (f[i].0, raw[i].1)).take(n)),
    decreases n,
{
    let m = Seq::new(raw.len(), |i: int| (f[i].0, raw[i].1));
    if n > 0 {
        lemma_named(raw, f, n - 1);
        assert(raw.take(n).drop_last() =~= raw.take(n - 1));
        assert(raw.take(n).last() == raw[n - 1]);
        assert(m.take(n - 1).push((f[n - 1].0, raw[n - 1].1)) =~= m.take(n));
    } else {
        assert(m.take(0) =~= Seq::empty());
        assert(raw.take(0) =~= Seq::empty());
    }
}

proof fn lemma_written(m: Seq<(Seq<char>, Seq<u8>)>, k: int, n: int)
    requires
        0 <= k < m.len(),
        0 <= n <= m.len(),
        forall|i: int| 0 <= i < m.len() && i != k ==> (#[trigger] m[i]).0 != m[k].0,
    ensures
        written_as(m.take(n), m[k].0) == (if k < n {
            Ok::<Option<Seq<u8>>, ()>(Some(m[k].1))
        } else {
            Ok(None)
        }),
    decreases n,
{
    if n > 0 {
        lemma_written(m, k, n - 1);
        assert(m.take(n).drop_last() =~= m.take(n - 1));
        assert(m.take(n).last() == m[n - 1]);
    }
}

proof fn lemma_fields(
    m: Seq<(Seq<char>, Seq<u8>)>,
    f: Seq<(Seq<char>, JsonView)>,
    names: Seq<Seq<char>>,
    n: int,
)
    requires
        0 <= n <= f.len(),
        m.len() == f.len(),
        crate::json::distinct_names(f),
        names == f.map_values(|x: (Seq<char>, JsonView)| x.0),
        forall|i: int|
            0 <= i < m.len() ==> (#[trigger] m[i]).0 == f[i].0 && crate::json::read_json(m[i].1)
                == Some(f[i].1),
    ensures
        fields_in(m, names.take(n)) == Some(f.take(n)),
    decreases n,
{
    if n > 0 {
        lemma_fields(m, f, names, n - 1);
        assert(names.take(n).drop_last() =~= names.take(n - 1));
        assert(names.take(n).last() == f[n - 1].0);
        assert(m[n - 1].0 == f[n - 1].0);
        assert forall|i: int| 0 <= i < m.len() && i != n - 1 implies (#[trigger] m[i]).0 != m[n
            - 1].0 by {
            assert(f[i].0 != f[n - 1].0);
        }
        lemma_written(m, n - 1, m.len() as int);
        assert(m.take(m.len() as int) =~= m);
        assert(f.take(n - 1).push((f[n - 1].0, f[n - 1].1)) =~= f.take(n));
    } else {
        assert(f.take(0) =~= Seq::empty());
        assert(names.take(0) =~= Seq::empty());
    }
}

fn skip_space(b: &[u8], from: usize) -> (r: usize)
    requires
        from <= b@.len(),
    ensures
        r == space_end(b@, from as int),
        from <= r <= b@.len(),
{
    let mut i: usize = from;
    while i < b.len() && (b[i] == 0x20 || b[i] == 0x09 || b[i] == 0x0a || b[i] == 0x0d)
        invariant
            from <= i <= b@.len(),
            space_end(b@, i as int) == space_end(b@, from as int),
        decreases b@.len() - i,
    {
        i = i + 1;
    }
    i
}

fn find_text_end(b: &[u8], from: usize) -> (r: usize)
    requires
        from <= b@.len(),
    ensures
        r == text_end(b@, from as int),
{
    let mut i: usize = from;
    while i < b.len()
        invariant
            text_end(b@, i as int) == text_end(b@, from as int),
        decreases b@.len() - i,
    {
        if b[i] == 0x22 {
            return i + 1;
        }
        if b[i] == 0x5c {
            if b.len() - i <= 2 {
                return b.len();
            }
            i = i + 2;
        } else {
            i = i + 1;
        }
    }
    b.len()
}

fn find_value_end(b: &[u8], from: usize) -> (r: usize)
    requires
        from <= b@.len(),
    ensures
        r == value_end(b@, from as int, 0),
{
    let mut depth: usize = 0;
    let mut i: usize = from;
    while i < b.len()
        invariant
            i <= b@.len(),
            depth <= i,
            value_end(b@, i as int, depth as nat) == value_end(b@, from as int, 0),
        decreases b@.len() - i,
    {
        let c: u8 = b[i];
        proof {
            lemma_text_end(b@, i + 1);
        }
        if c == 0x22 {
            i = find_text_end(b, i + 1);
        } else if c == 0x7b || c == 0x5b {
            depth = depth + 1;
            i = i + 1;
        } else if depth == 0 && (c == 0x2c || c == 0x7d || c == 0x5d) {
            return i;
        } else if c == 0x7d || c == 0x5d {
            depth = depth - 1;
            i = i + 1;
        } else {
            i = i + 1;
        }
    }
    b.len()
}

/// The members with their names read.
fn read_members(b: &[u8], from: usize) -> (r: Option<Vec<(String, Vec<u8>)>>)
    requires
        from <= b@.len(),
    ensures
        match r {
            Some(v) => named(members_from(b@, from as int)) == Some(member_views(v@)),
            None => named(members_from(b@, from as int)) is None,
        },
{
    let ghost all = members_from(b@, from as int);
    let ghost mut done = Seq::<(Seq<u8>, Seq<u8>)>::empty();
    let mut out: Vec<(String, Vec<u8>)> = Vec::new();
    let mut i: usize = from;
    assert(member_views(out@) =~= Seq::empty());
    assert(done + members_from(b@, i as int) =~= all);
    loop
        invariant_except_break
            i <= b@.len(),
            all == done + members_from(b@, i as int),
        invariant
            all == members_from(b@, from as int),
            named(done) == Some(member_views(out@)),
        ensures
            all == done,
            named(done) == Some(member_views(out@)),
        decreases b@.len() - i,
    {
        let ghost at = i as int;
        proof {
            lemma_space_end(b@, at);
        }
        let a = skip_space(b, i);
        if a >= b.len() || b[a] != 0x22 {
            assert(done + members_from(b@, at) =~= done);
            break;
        }
        let e = find_text_end(b, a + 1);
        proof {
            lemma_text_end(b@, a + 1);
            lemma_space_end(b@, e as int);
        }
        let c = skip_space(b, e);
        if c >= b.len() {
            assert(done + members_from(b@, at) =~= done);
            break;
        }
        let z = find_value_end(b, c + 1);
        proof {
            lemma_value_end(b@, c + 1, 0);
        }
        let key = vstd::slice::slice_subrange(b, a, e);
        let value = vstd::slice::slice_subrange(b, c + 1, z);
        let more = z < b.len() && b[z] == 0x2c;
        let ghost member = (b@.subrange(a as int, e as int), b@.subrange(c + 1, z as int));
        let ghost rest = if more {
            members_from(b@, z + 1)
        } else {
            Seq::empty()
        };
        proof {
            assert(members_from(b@, at) == seq![member] + rest);
            assert(done.push(member) + rest =~= all);
            assert(done.push(member).drop_last() =~= done);
        }
        let name = match from_bytes(key) {
            Some(Json::Str(s)) => s,
            _ => {
                proof {
                    assert(all[done.len() as int] == member);
                    lemma_unnamed(all, done.len() as int);
                }
                return None;
            },
        };
        let ghost before = member_views(out@);
        let ghost view = (name@, value@);
        out.push((name, vstd::slice::slice_to_vec(value)));
        proof {
            assert(member_views(out@) =~= before.push(view));
            done = done.push(member);
        }
        if !more {
            assert(done + rest =~= done);
            break;
        }
        i = z + 1;
    }
    Some(out)
}

proof fn lemma_unnamed(m: Seq<(Seq<u8>, Seq<u8>)>, k: int)
    requires
        0 <= k < m.len(),
        !(crate::json::read_json(m[k].0) matches Some(JsonView::Str(_))),
    ensures
        named(m) is None,
    decreases m.len(),
{
    if k < m.len() - 1 {
        lemma_unnamed(m.drop_last(), k);
    }
}

/// The members, as mathematics.
spec fn member_views(v: Seq<(String, Vec<u8>)>) -> Seq<(Seq<char>, Seq<u8>)> {
    v.map_values(|x: (String, Vec<u8>)| (x.0@, x.1@))
}

fn field(m: &Vec<(String, Vec<u8>)>, name: &str) -> (r: Result<Option<Json>, ()>)
    ensures
        match (r, written_as(member_views(m@), name@)) {
            (Ok(None), Ok(None)) => true,
            (Ok(Some(j)), Ok(Some(b))) => crate::json::read_json(b) == Some(j@),
            (Err(_), Ok(Some(b))) => crate::json::read_json(b) is None,
            (Err(_), Err(_)) => true,
            _ => false,
        },
{
    let ghost all = member_views(m@);
    let mut found: Option<usize> = None;
    let mut i: usize = 0;
    assert(all.take(0) =~= Seq::empty());
    while i < m.len()
        invariant
            all == member_views(m@),
            i <= m@.len(),
            found matches Some(k) ==> k < i,
            written_as(all.take(i as int), name@) == (match found {
                Some(k) => Ok::<Option<Seq<u8>>, ()>(Some(m@[k as int].1@)),
                None => Ok(None),
            }),
        decreases m@.len() - i,
    {
        proof {
            assert(all.take(i + 1).drop_last() =~= all.take(i as int));
            assert(all.take(i + 1).last() == all[i as int]);
        }
        if same(m[i].0.as_str(), name) {
            if found.is_some() {
                proof {
                    lemma_fault_stays(all, i + 1, name@);
                }
                return Err(());
            }
            found = Some(i);
        }
        i = i + 1;
    }
    assert(all.take(i as int) =~= all);
    match found {
        None => Ok(None),
        Some(k) => match from_bytes(m[k].1.as_slice()) {
            Some(j) => Ok(Some(j)),
            None => Err(()),
        },
    }
}

proof fn lemma_fault_stays(m: Seq<(Seq<char>, Seq<u8>)>, n: int, name: Seq<char>)
    requires
        0 <= n <= m.len(),
        written_as(m.take(n), name) is Err,
    ensures
        written_as(m, name) is Err,
    decreases m.len() - n,
{
    if n < m.len() {
        assert(m.take(n + 1).drop_last() =~= m.take(n));
        lemma_fault_stays(m, n + 1, name);
    } else {
        assert(m.take(n) =~= m);
    }
}

/// What some bytes hold, read for the fields with these names.
pub fn read_record(bytes: &[u8], names: &Vec<String>) -> (r: Option<Json>)
    ensures
        match r {
            Some(j) => record_in(bytes@, names.deep_view()) == Some(j@),
            None => record_in(bytes@, names.deep_view()) is None,
        },
{
    broadcast use crate::json::lemma_obj_members;

    let a = skip_space(bytes, 0);
    if a >= bytes.len() || bytes[a] != 0x7b {
        return from_bytes(bytes);
    }
    if !is_json(bytes) {
        return None;
    }
    let members = match read_members(bytes, a + 1) {
        Some(m) => m,
        None => {
            return None;
        },
    };
    let ghost m = member_views(members@);
    let ghost all = names.deep_view();
    let mut f: Vec<(String, Json)> = Vec::new();
    let mut i: usize = 0;
    assert(crate::json::members(f@) =~= Seq::empty());
    assert(all.take(0) =~= Seq::empty());
    while i < names.len()
        invariant
            all == names.deep_view(),
            m == member_views(members@),
            opens_object(bytes@),
            is_json_text(bytes@),
            named(members_in(bytes@)) == Some(m),
            i <= names@.len(),
            fields_in(m, all.take(i as int)) == Some(crate::json::members(f@)),
        decreases names@.len() - i,
    {
        let ghost before = crate::json::members(f@);
        proof {
            assert(all.take(i + 1).drop_last() =~= all.take(i as int));
            assert(all.take(i + 1).last() == names@[i as int]@);
        }
        match field(&members, names[i].as_str()) {
            Ok(Some(j)) => {
                let ghost view = (names@[i as int]@, j@);
                f.push((names[i].clone(), j));
                assert(crate::json::members(f@) =~= before.push(view));
            },
            Ok(None) => {},
            Err(_) => {
                proof {
                    lemma_no_fields(m, all, i + 1);
                }
                return None;
            },
        }
        i = i + 1;
    }
    assert(all.take(i as int) =~= all);
    Some(Json::Obj(f))
}

proof fn lemma_no_fields(m: Seq<(Seq<char>, Seq<u8>)>, names: Seq<Seq<char>>, n: int)
    requires
        0 <= n <= names.len(),
        fields_in(m, names.take(n)) is None,
    ensures
        fields_in(m, names) is None,
    decreases names.len() - n,
{
    if n < names.len() {
        assert(names.take(n + 1).drop_last() =~= names.take(n));
        lemma_no_fields(m, names, n + 1);
    } else {
        assert(names.take(n) =~= names);
    }
}

} // verus!
