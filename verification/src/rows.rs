use vstd::prelude::*;
use vstd::string::*;

use crate::types::{field_views, RowTail, Ty, Type};

verus! {

broadcast use crate::types::group_views;

/// A text comes before another in the order of their characters.
pub open spec fn text_before(a: Seq<char>, b: Seq<char>) -> bool
    decreases a.len(),
{
    if b.len() == 0 {
        false
    } else if a.len() == 0 {
        true
    } else if a[0] == b[0] {
        text_before(a.skip(1), b.skip(1))
    } else {
        (a[0] as u32) < (b[0] as u32)
    }
}

fn is_before(a: &str, b: &str) -> (r: bool)
    ensures
        r == text_before(a@, b@),
{
    let n: usize = a.unicode_len();
    let m: usize = b.unicode_len();
    let mut i: usize = 0;
    assert(a@.skip(0) =~= a@);
    assert(b@.skip(0) =~= b@);
    while i < n && i < m
        invariant
            n == a@.len(),
            m == b@.len(),
            i <= n,
            i <= m,
            text_before(a@, b@) == text_before(a@.skip(i as int), b@.skip(i as int)),
        decreases n - i,
    {
        let x = a.get_char(i);
        let y = b.get_char(i);
        assert(a@.skip(i as int)[0] == x);
        assert(b@.skip(i as int)[0] == y);
        assert(a@.skip(i as int).skip(1) =~= a@.skip(i + 1));
        assert(b@.skip(i as int).skip(1) =~= b@.skip(i + 1));
        if x != y {
            return (x as u32) < (y as u32);
        }
        i = i + 1;
    }
    i < m
}

/// A field put among fields in order, after those with the same label.
pub open spec fn inserted(fs: Seq<(Seq<char>, Ty)>, f: (Seq<char>, Ty)) -> Seq<(Seq<char>, Ty)>
    decreases fs.len(),
{
    if fs.len() > 0 && text_before(f.0, fs.last().0) {
        inserted(fs.drop_last(), f).push(fs.last())
    } else {
        fs.push(f)
    }
}

/// Fields in the order of their labels.
pub open spec fn ordered(fs: Seq<(Seq<char>, Ty)>) -> Seq<(Seq<char>, Ty)>
    decreases fs.len(),
{
    if fs.len() == 0 {
        Seq::empty()
    } else {
        inserted(ordered(fs.drop_last()), fs.last())
    }
}

/// The type of a record without a name.
pub open spec fn row_type(fs: Seq<(Seq<char>, Ty)>, tail: RowTail) -> Ty {
    Ty::Record { fields: ordered(fs), tail }
}

proof fn inserted_at(fs: Seq<(Seq<char>, Ty)>, f: (Seq<char>, Ty), p: int)
    requires
        0 <= p <= fs.len(),
        forall|k: int| p <= k < fs.len() ==> text_before(f.0, (#[trigger] fs[k]).0),
        p == 0 || !text_before(f.0, fs[p - 1].0),
    ensures
        inserted(fs, f) == fs.insert(p, f),
    decreases fs.len(),
{
    if p == fs.len() {
        assert(fs.insert(p, f) =~= fs.push(f));
    } else {
        assert(text_before(f.0, fs[fs.len() - 1].0));
        inserted_at(fs.drop_last(), f, p);
        assert(fs.insert(p, f) =~= fs.drop_last().insert(p, f).push(fs.last()));
    }
}

impl Type {
    /// The type of a record without a name. The order in which its fields are
    /// given does not matter.
    pub fn record(fields: Vec<(String, Type)>, tail: RowTail) -> (r: Type)
        ensures
            r@ == row_type(field_views(fields@), tail),
    {
        let ghost all = field_views(fields@);
        let mut out: Vec<(String, Type)> = Vec::new();
        let mut i: usize = 0;
        assert(field_views(out@) =~= ordered(all.take(0)));
        while i < fields.len()
            invariant
                i <= fields@.len(),
                all == field_views(fields@),
                field_views(out@) == ordered(all.take(i as int)),
            decreases fields@.len() - i,
        {
            let f = (fields[i].0.clone(), fields[i].1.clone());
            let ghost before = field_views(out@);
            let mut p: usize = out.len();
            while p > 0 && is_before(f.0.as_str(), out[p - 1].0.as_str())
                invariant
                    p <= out@.len(),
                    before == field_views(out@),
                    forall|k: int|
                        p <= k < before.len() ==> text_before(f.0@, (#[trigger] before[k]).0),
                decreases p,
            {
                p = p - 1;
            }
            let ghost g = (f.0@, f.1@);
            proof {
                inserted_at(before, g, p as int);
                assert(all.take(i + 1).drop_last() =~= all.take(i as int));
                assert(all.take(i + 1).last() == g);
            }
            let ghost was = out@;
            out.insert(p, f);
            assert(field_views(out@) =~= before.insert(p as int, g)) by {
                assert forall|k: int| 0 <= k < out@.len() implies field_views(out@)[k]
                    == before.insert(p as int, g)[k] by {
                    if k < p {
                        assert(out@[k] == was[k]);
                    } else if k > p {
                        assert(out@[k] == was[k - 1]);
                    }
                }
            }
            i = i + 1;
        }
        assert(all.take(all.len() as int) =~= all);
        Type::Record { fields: out, tail }
    }
}

proof fn inserted_orders(fs: Seq<(Seq<char>, Ty)>, f: (Seq<char>, Ty))
    ensures
        inserted(fs, f).to_multiset() == fs.to_multiset().insert(f),
    decreases fs.len(),
{
    broadcast use vstd::seq_lib::group_to_multiset_ensures;

    if fs.len() > 0 && text_before(f.0, fs.last().0) {
        inserted_orders(fs.drop_last(), f);
        assert(fs.drop_last().push(fs.last()) =~= fs);
    }
}

/// Ordering the fields of a record loses none and adds none.
pub proof fn ordering_keeps_fields(fs: Seq<(Seq<char>, Ty)>)
    ensures
        ordered(fs).to_multiset() == fs.to_multiset(),
    decreases fs.len(),
{
    broadcast use vstd::seq_lib::group_to_multiset_ensures;

    if fs.len() > 0 {
        ordering_keeps_fields(fs.drop_last());
        inserted_orders(ordered(fs.drop_last()), fs.last());
        assert(fs.drop_last().push(fs.last()) =~= fs);
    }
}

} // verus!
