use vstd::prelude::*;

verus! {

/// Lexicographic order on byte strings; this is how `str` orders text, and on
/// UTF-8 it agrees with the order of code points.
pub open spec fn bytes_le(a: Seq<u8>, b: Seq<u8>) -> bool
    decreases a.len(),
{
    if a.len() == 0 {
        true
    } else if b.len() == 0 {
        false
    } else if a[0] != b[0] {
        a[0] < b[0]
    } else {
        bytes_le(a.drop_first(), b.drop_first())
    }
}

/// A sort key: text, or nothing. Nothing comes after every text.
pub open spec fn key_le(a: Option<Seq<u8>>, b: Option<Seq<u8>>) -> bool {
    match (a, b) {
        (_, None) => true,
        (None, Some(_)) => false,
        (Some(x), Some(y)) => bytes_le(x, y),
    }
}

pub proof fn lemma_bytes_le_total(a: Seq<u8>, b: Seq<u8>)
    ensures
        bytes_le(a, b) || bytes_le(b, a),
    decreases a.len(),
{
    if a.len() > 0 && b.len() > 0 && a[0] == b[0] {
        lemma_bytes_le_total(a.drop_first(), b.drop_first());
    }
}

pub proof fn lemma_bytes_le_trans(a: Seq<u8>, b: Seq<u8>, c: Seq<u8>)
    requires
        bytes_le(a, b),
        bytes_le(b, c),
    ensures
        bytes_le(a, c),
    decreases a.len(),
{
    if a.len() > 0 && b.len() > 0 && c.len() > 0 && a[0] == b[0] && b[0] == c[0] {
        lemma_bytes_le_trans(a.drop_first(), b.drop_first(), c.drop_first());
    }
}

pub proof fn lemma_key_le_total(a: Option<Seq<u8>>, b: Option<Seq<u8>>)
    ensures
        key_le(a, b) || key_le(b, a),
{
    if a is Some && b is Some {
        lemma_bytes_le_total(a.unwrap(), b.unwrap());
    }
}

pub proof fn lemma_key_le_trans(a: Option<Seq<u8>>, b: Option<Seq<u8>>, c: Option<Seq<u8>>)
    requires
        key_le(a, b),
        key_le(b, c),
    ensures
        key_le(a, c),
{
    if a is Some && b is Some && c is Some {
        lemma_bytes_le_trans(a.unwrap(), b.unwrap(), c.unwrap());
    }
}

/// A record with a sort key.
pub trait Keyed: Sized {
    spec fn sort_key(&self) -> Option<Seq<u8>>;

    fn key_bytes(&self) -> (r: Option<&[u8]>)
        ensures
            r matches Some(b) ==> self.sort_key() == Some(b@),
            r is None ==> self.sort_key() is None,
    ;
}

/// Compares two sort keys.
pub fn key_le_exec(a: Option<&[u8]>, b: Option<&[u8]>) -> (r: bool)
    ensures
        r == key_le(
            match a { Some(x) => Some(x@), None => None },
            match b { Some(y) => Some(y@), None => None },
        ),
{
    match (a, b) {
        (_, None) => true,
        (None, Some(_)) => false,
        (Some(x), Some(y)) => {
            let mut i: usize = 0;
            assert(x@.subrange(0, x@.len() as int) == x@);
            assert(y@.subrange(0, y@.len() as int) == y@);
            while i < x.len() && i < y.len() && x[i] == y[i]
                invariant
                    0 <= i <= x@.len(),
                    i <= y@.len(),
                    x@.subrange(0, i as int) == y@.subrange(0, i as int),
                    bytes_le(x@, y@) == bytes_le(x@.subrange(i as int, x@.len() as int), y@.subrange(i as int, y@.len() as int)),
                decreases x@.len() - i,
            {
                let ghost xs = x@.subrange(i as int, x@.len() as int);
                let ghost ys = y@.subrange(i as int, y@.len() as int);
                assert(xs.drop_first() == x@.subrange(i + 1, x@.len() as int));
                assert(ys.drop_first() == y@.subrange(i + 1, y@.len() as int));
                i = i + 1;
            }
            proof {
                let xs = x@.subrange(i as int, x@.len() as int);
                let ys = y@.subrange(i as int, y@.len() as int);
                if i < x@.len() && i < y@.len() {
                    assert(xs[0] == x@[i as int]);
                    assert(ys[0] == y@[i as int]);
                }
            }
            if i == x.len() {
                true
            } else if i == y.len() {
                false
            } else {
                x[i] < y[i]
            }
        },
    }
}

/// Inserts `x` into `s` after every item whose key is at most the key of `x`,
/// searching from the back.
pub open spec fn insert_stable<T: Keyed>(s: Seq<T>, x: T) -> Seq<T>
    decreases s.len(),
{
    if s.len() == 0 {
        seq![x]
    } else if key_le(s.last().sort_key(), x.sort_key()) {
        s.push(x)
    } else {
        insert_stable(s.drop_last(), x).push(s.last())
    }
}

/// Stable insertion sort by key.
pub open spec fn sort_stable<T: Keyed>(s: Seq<T>) -> Seq<T>
    decreases s.len(),
{
    if s.len() == 0 {
        s
    } else {
        insert_stable(sort_stable(s.drop_last()), s.last())
    }
}

/// The items are in non-decreasing order of key.
pub open spec fn sorted_by_key<T: Keyed>(s: Seq<T>) -> bool {
    forall|i: int, j: int| 0 <= i < j < s.len() ==> key_le(#[trigger] s[i].sort_key(), #[trigger] s[j].sort_key())
}

proof fn lemma_insert_stable<T: Keyed>(s: Seq<T>, x: T)
    requires
        sorted_by_key(s),
    ensures
        sorted_by_key(insert_stable(s, x)),
        insert_stable(s, x).to_multiset() == s.to_multiset().insert(x),
    decreases s.len(),
{
    broadcast use vstd::seq_lib::group_to_multiset_ensures;
    if s.len() == 0 {
        assert(seq![x] == Seq::<T>::empty().push(x));
    } else if key_le(s.last().sort_key(), x.sort_key()) {
        let r = s.push(x);
        assert forall|i: int, j: int| 0 <= i < j < r.len() implies key_le(#[trigger] r[i].sort_key(), #[trigger] r[j].sort_key()) by {
            if j == s.len() && i < s.len() - 1 {
                lemma_key_le_trans(s[i].sort_key(), s.last().sort_key(), x.sort_key());
            }
        }
    } else {
        let p = s.drop_last();
        let l = s.last();
        assert(p.push(l) == s);
        assert(sorted_by_key(p));
        lemma_insert_stable(p, x);
        let q = insert_stable(p, x);
        let r = q.push(l);
        lemma_key_le_total(l.sort_key(), x.sort_key());
        assert forall|i: int, j: int| 0 <= i < j < r.len() implies key_le(#[trigger] r[i].sort_key(), #[trigger] r[j].sort_key()) by {
            if j == q.len() {
                assert(q.contains(q[i]));
                assert(q.to_multiset().count(q[i]) > 0);
                if q[i] != x {
                    assert(p.to_multiset().count(q[i]) > 0);
                    assert(p.contains(q[i]));
                    let k = choose|k: int| 0 <= k < p.len() && p[k] == q[i];
                    assert(s[k] == p[k]);
                    assert(s[s.len() - 1] == l);
                }
            }
        }
        assert(r.to_multiset() == s.to_multiset().insert(x)) by {
            assert(s.to_multiset() == p.to_multiset().insert(l));
        }
    }
}

/// Stable insertion sort orders by key and keeps every item.
pub proof fn lemma_sort_stable<T: Keyed>(s: Seq<T>)
    ensures
        sorted_by_key(sort_stable(s)),
        sort_stable(s).to_multiset() == s.to_multiset(),
        sort_stable(s).len() == s.len(),
    decreases s.len(),
{
    broadcast use vstd::seq_lib::group_to_multiset_ensures;
    if s.len() > 0 {
        let p = s.drop_last();
        lemma_sort_stable(p);
        lemma_insert_stable(sort_stable(p), s.last());
        assert(p.push(s.last()) == s);
        assert(sort_stable(s).to_multiset().len() == s.to_multiset().len());
    }
}

fn insert_into<T: Keyed>(v: Vec<T>, x: T) -> (r: Vec<T>)
    ensures
        r@ == insert_stable(v@, x),
    decreases v@.len(),
{
    let mut v = v;
    if v.len() == 0 {
        let mut r: Vec<T> = Vec::new();
        r.push(x);
        assert(r@ == seq![x]);
        r
    } else {
        let ghost s = v@;
        let last = v.pop().unwrap();
        if key_le_exec(last.key_bytes(), x.key_bytes()) {
            v.push(last);
            assert(v@ == s);
            v.push(x);
            v
        } else {
            let mut r = insert_into(v, x);
            r.push(last);
            r
        }
    }
}

/// Sorts by key, keeping the given order among items with equal keys.
pub fn sort_by_key<T: Keyed>(v: Vec<T>) -> (r: Vec<T>)
    ensures
        r@ == sort_stable(v@),
        sorted_by_key(r@),
        r@.to_multiset() == v@.to_multiset(),
    decreases v@.len(),
{
    proof {
        lemma_sort_stable(v@);
    }
    let mut v = v;
    match v.pop() {
        None => {
            v
        },
        Some(x) => {
            let r = sort_by_key(v);
            insert_into(r, x)
        },
    }
}

} // verus!
