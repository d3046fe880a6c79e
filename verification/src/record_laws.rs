//! Records and members: the laws of what is read of an object.

use vstd::prelude::*;

use crate::json::{member, read_json, JsonView};
use crate::record::{fields_in, members_from, members_in, space_end, text_end, value_end, written_as};

verus! {

/// An object's member is the first of its name; a name that it does not have, and anything that is no
/// object, gives none.
pub proof fn law_a_member_is_the_first_of_its_name(
    f: Seq<(Seq<char>, JsonView)>,
    name: Seq<char>,
    k: int,
    j: JsonView,
)
    ensures
        (forall|i: int| 0 <= i < f.len() ==> (#[trigger] f[i]).0 != name) ==> member(
            JsonView::Obj(f),
            name,
        ) is None,
        (0 <= k < f.len() && f[k].0 == name && forall|i: int| 0 <= i < k ==> (#[trigger] f[i]).0 != name)
            ==> member(JsonView::Obj(f), name) == Some(f[k].1),
        j !is Obj ==> member(j, name) is None,
    decreases f.len(),
{
    if f.len() > 0 {
        let g = f.skip(1);
        law_a_member_is_the_first_of_its_name(g, name, k - 1, j);
        if forall|i: int| 0 <= i < f.len() ==> (#[trigger] f[i]).0 != name {
            assert(f[0].0 != name);
            assert forall|i: int| 0 <= i < g.len() implies (#[trigger] g[i]).0 != name by {
                assert(g[i] == f[i + 1]);
            }
        }
        if 0 < k < f.len() && f[k].0 == name && (forall|i: int|
            0 <= i < k ==> (#[trigger] f[i]).0 != name) {
            assert(f[0].0 != name);
            assert(g[k - 1] == f[k]);
            assert forall|i: int| 0 <= i < k - 1 implies (#[trigger] g[i]).0 != name by {
                assert(g[i] == f[i + 1]);
            }
        }
    }
}

/// A field is what its one member says; it is missing where there is none, and at fault where there are
/// two or more.
pub proof fn law_a_field_comes_once(m: Seq<(Seq<char>, Seq<u8>)>, name: Seq<char>, k: int, l: int)
    ensures
        (forall|i: int| 0 <= i < m.len() ==> (#[trigger] m[i]).0 != name) ==> written_as(m, name)
            == Ok::<Option<Seq<u8>>, ()>(None),
        (0 <= k < m.len() && m[k].0 == name && forall|i: int|
            0 <= i < m.len() && i != k ==> (#[trigger] m[i]).0 != name) ==> written_as(m, name) == Ok::<
            Option<Seq<u8>>,
            (),
        >(Some(m[k].1)),
        0 <= k < l < m.len() && m[k].0 == name && m[l].0 == name ==> written_as(m, name) is Err,
    decreases m.len(),
{
    if m.len() > 0 {
        let d = m.drop_last();
        let n = m.len() - 1;
        law_a_field_comes_once(d, name, k, l);
        if forall|i: int| 0 <= i < m.len() ==> (#[trigger] m[i]).0 != name {
            assert(m[n].0 != name);
            assert forall|i: int| 0 <= i < d.len() implies (#[trigger] d[i]).0 != name by {
                assert(d[i] == m[i]);
            }
        }
        if 0 <= k < m.len() && m[k].0 == name && (forall|i: int|
            0 <= i < m.len() && i != k ==> (#[trigger] m[i]).0 != name) {
            if k == n {
                assert forall|i: int| 0 <= i < d.len() implies (#[trigger] d[i]).0 != name by {
                    assert(d[i] == m[i]);
                }
            } else {
                assert(m[n].0 != name);
                assert(d[k] == m[k]);
                assert forall|i: int| 0 <= i < d.len() && i != k implies (#[trigger] d[i]).0 != name by {
                    assert(d[i] == m[i]);
                }
            }
        }
        if 0 <= k < l < m.len() && m[k].0 == name && m[l].0 == name {
            assert(d[k] == m[k]);
            if l < n {
                assert(d[l] == m[l]);
            } else {
                lemma_written(d, name, k);
            }
        }
    }
}

proof fn lemma_written(m: Seq<(Seq<char>, Seq<u8>)>, name: Seq<char>, k: int)
    requires
        0 <= k < m.len(),
        m[k].0 == name,
    ensures
        written_as(m, name) != Ok::<Option<Seq<u8>>, ()>(None),
    decreases m.len(),
{
    if k < m.len() - 1 {
        assert(m.drop_last()[k] == m[k]);
        lemma_written(m.drop_last(), name, k);
    }
}

/// The value of a field of this name is read.
pub open spec fn is_read(m: Seq<(Seq<char>, Seq<u8>)>, field: (Seq<char>, JsonView)) -> bool {
    written_as(m, field.0) matches Ok(Some(b)) && read_json(b) == Some(field.1)
}

/// Of a record's members its fields are read, all of them and nothing else, each by its own name; other
/// members are left aside.
pub proof fn law_a_record_is_its_fields(m: Seq<(Seq<char>, Seq<u8>)>, names: Seq<Seq<char>>)
    requires
        fields_in(m, names) is Some,
    ensures
        ({
            let f = fields_in(m, names)->Some_0;
            &&& forall|i: int| 0 <= i < f.len() ==> names.contains((#[trigger] f[i]).0) && is_read(m, f[i])
            &&& forall|k: int|
                0 <= k < names.len() && written_as(m, #[trigger] names[k]) != Ok::<
                    Option<Seq<u8>>,
                    (),
                >(None) ==> exists|i: int| 0 <= i < f.len() && (#[trigger] f[i]).0 == names[k]
        }),
    decreases names.len(),
{
    if names.len() > 0 {
        let d = names.drop_last();
        law_a_record_is_its_fields(m, d);
        let f = fields_in(m, names)->Some_0;
        let g = fields_in(m, d)->Some_0;
        let n = names.len() - 1;
        assert forall|i: int| 0 <= i < f.len() implies names.contains((#[trigger] f[i]).0) && is_read(
            m,
            f[i],
        ) by {
            if i < g.len() {
                assert(f[i] == g[i]);
                let k = choose|k: int| 0 <= k < d.len() && d[k] == g[i].0;
                assert(names[k] == g[i].0);
            } else {
                assert(names[n] == f[i].0);
            }
        }
        assert forall|k: int|
            0 <= k < names.len() && written_as(m, #[trigger] names[k]) != Ok::<Option<Seq<u8>>, ()>(
                None,
            ) implies exists|i: int| 0 <= i < f.len() && (#[trigger] f[i]).0 == names[k] by {
            if k < n {
                assert(d[k] == names[k]);
                let i = choose|i: int| 0 <= i < g.len() && (#[trigger] g[i]).0 == d[k];
                assert(f[i] == g[i]);
            } else {
                assert(f[g.len() as int].0 == names[k]);
            }
        }
    }
}

/// The bytes are a text between quotes, without escapes.
pub open spec fn is_plain_text(t: Seq<u8>) -> bool {
    &&& t.len() >= 2
    &&& t[0] == 0x22
    &&& t[t.len() - 1] == 0x22
    &&& forall|k: int| 0 < k < t.len() - 1 ==> #[trigger] t[k] != 0x22 && t[k] != 0x5c
}

/// The bytes are a text without escapes, or of a number, a boolean or `null`: neither quotes nor
/// brackets nor commas.
pub open spec fn is_plain_value(t: Seq<u8>) -> bool {
    is_plain_text(t) || forall|k: int|
        0 <= k < t.len() ==> #[trigger] t[k] != 0x22 && t[k] != 0x7b && t[k] != 0x5b && t[k] != 0x2c
            && t[k] != 0x7d && t[k] != 0x5d
}

/// Members as they are written, and the brace that ends them.
pub open spec fn written(m: Seq<(Seq<u8>, Seq<u8>)>) -> Seq<u8>
    decreases m.len(),
{
    if m.len() == 0 {
        seq![0x7du8]
    } else if m.len() == 1 {
        m[0].0 + seq![0x3au8] + m[0].1 + seq![0x7du8]
    } else {
        m[0].0 + seq![0x3au8] + m[0].1 + seq![0x2cu8] + written(m.skip(1))
    }
}

proof fn lemma_text_ends(b: Seq<u8>, i: int, k: int, t: Seq<u8>)
    requires
        is_plain_text(t),
        0 <= i,
        i + t.len() <= b.len(),
        b.subrange(i, i + t.len()) == t,
        1 <= k < t.len(),
    ensures
        text_end(b, i + k) == i + t.len(),
    decreases t.len() - k,
{
    assert(b[i + k] == b.subrange(i, i + t.len())[k]);
    if k < t.len() - 1 {
        lemma_text_ends(b, i, k + 1, t);
    }
}

proof fn lemma_value_ends(b: Seq<u8>, i: int, k: int, t: Seq<u8>)
    requires
        is_plain_value(t),
        !is_plain_text(t),
        0 <= i,
        i + t.len() < b.len(),
        b.subrange(i, i + t.len()) == t,
        0 <= k <= t.len(),
        b[i + t.len()] == 0x2c || b[i + t.len()] == 0x7d,
    ensures
        value_end(b, i + k, 0) == i + t.len(),
    decreases t.len() - k,
{
    if k < t.len() {
        assert(b[i + k] == b.subrange(i, i + t.len())[k]);
        lemma_value_ends(b, i, k + 1, t);
    }
}

proof fn lemma_written_from(p: Seq<u8>, m: Seq<(Seq<u8>, Seq<u8>)>)
    requires
        forall|k: int| 0 <= k < m.len() ==> is_plain_text((#[trigger] m[k]).0) && is_plain_value(m[k].1),
    ensures
        members_from(p + written(m), p.len() as int) == m,
    decreases m.len(),
{
    let b = p + written(m);
    let i = p.len() as int;
    assert(b.skip(i) =~= written(m));
    if m.len() == 0 {
        assert(b[i] == 0x7d);
        assert(space_end(b, i) == i);
        assert(m =~= Seq::empty());
    } else {
        let (n, v) = m[0];
        assert(is_plain_text(n) && is_plain_value(v));
        let r = m.skip(1);
        let e = i + n.len();
        let z = e + 1 + v.len();
        assert(b[i] == n[0]);
        assert(space_end(b, i) == i);
        assert(b.subrange(i, e) =~= n);
        lemma_text_ends(b, i, 1, n);
        assert(b[e] == 0x3a);
        assert(space_end(b, e) == e);
        assert(b.subrange(e + 1, z) =~= v);
        assert(b[z] == (if m.len() == 1 {
            0x7du8
        } else {
            0x2cu8
        }));
        if is_plain_text(v) {
            assert(b[e + 1] == b.subrange(e + 1, z)[0]);
            lemma_text_ends(b, e + 1, 1, v);
            assert(value_end(b, z, 0) == z);
            assert(value_end(b, e + 1, 0) == z);
        } else {
            lemma_value_ends(b, e + 1, 0, v);
        }
        if m.len() == 1 {
            assert(members_from(b, i) =~= seq![(n, v)] + Seq::empty());
            assert(seq![(n, v)] + Seq::empty() =~= m);
        } else {
            let q = p + n + seq![0x3au8] + v + seq![0x2cu8];
            assert forall|k: int| 0 <= k < r.len() implies is_plain_text((#[trigger] r[k]).0)
                && is_plain_value(r[k].1) by {
                assert(r[k] == m[k + 1]);
            }
            lemma_written_from(q, r);
            assert(q + written(r) =~= b);
            assert(q.len() == z + 1);
            assert(seq![(n, v)] + r =~= m);
        }
    }
}

/// An object that is written without spaces has the members that it is written with, in order.
pub proof fn law_members_are_read_as_they_are_written(m: Seq<(Seq<u8>, Seq<u8>)>)
    requires
        forall|k: int| 0 <= k < m.len() ==> is_plain_text((#[trigger] m[k]).0) && is_plain_value(m[k].1),
    ensures
        members_in(seq![0x7bu8] + written(m)) == m,
{
    let b = seq![0x7bu8] + written(m);
    assert(b[0] == 0x7b);
    assert(space_end(b, 0) == 0);
    lemma_written_from(seq![0x7bu8], m);
}

} // verus!
