//! Ordering of names, and the sort of records by name that listings use.
//!
//! Names are ordered lexicographically by character code, which is the order
//! of their UTF-8 bytes and so the order `String` compares in.
use vstd::prelude::*;

use crate::text::chars_of;

verus! {

/// `a` comes strictly before `b`.
pub open spec fn name_lt(a: Seq<char>, b: Seq<char>) -> bool
    decreases a.len(),
{
    if a.len() == 0 {
        b.len() > 0
    } else if b.len() == 0 {
        false
    } else if a[0] != b[0] {
        (a[0] as int) < (b[0] as int)
    } else {
        name_lt(a.drop_first(), b.drop_first())
    }
}

/// No name comes strictly before itself.
pub proof fn lemma_name_lt_irreflexive(a: Seq<char>)
    ensures
        !name_lt(a, a),
    decreases a.len(),
{
    if a.len() > 0 {
        lemma_name_lt_irreflexive(a.drop_first());
    }
}

/// The order is transitive.
pub proof fn lemma_name_lt_transitive(a: Seq<char>, b: Seq<char>, c: Seq<char>)
    requires
        name_lt(a, b),
        name_lt(b, c),
    ensures
        name_lt(a, c),
    decreases a.len(),
{
    if a.len() > 0 && b.len() > 0 && c.len() > 0 {
        if a[0] == b[0] && b[0] == c[0] {
            lemma_name_lt_transitive(a.drop_first(), b.drop_first(), c.drop_first());
        }
    }
}

/// Of two distinct names one comes before the other.
pub proof fn lemma_name_lt_total(a: Seq<char>, b: Seq<char>)
    ensures
        a == b || name_lt(a, b) || name_lt(b, a),
    decreases a.len(),
{
    if a.len() > 0 && b.len() > 0 && a[0] != b[0] {
        assert((a[0] as int) != (b[0] as int));
    } else if a.len() > 0 && b.len() > 0 && a[0] == b[0] {
        lemma_name_lt_total(a.drop_first(), b.drop_first());
        if a.drop_first() == b.drop_first() {
            assert(a =~= seq![a[0]] + a.drop_first());
            assert(b =~= seq![b[0]] + b.drop_first());
            assert(a =~= b);
        }
    } else if a.len() == 0 && b.len() == 0 {
        assert(a =~= b);
    }
}

/// Whether `a` comes strictly before `b`.
pub fn less(a: &str, b: &str) -> (res: bool)
    ensures
        res == name_lt(a@, b@),
{
    let x = chars_of(a);
    let y = chars_of(b);
    let mut i: usize = 0;
    assert(x@.skip(0) =~= x@);
    assert(y@.skip(0) =~= y@);
    while i < x.len() && i < y.len() && x[i] == y[i]
        invariant
            i <= x@.len(),
            i <= y@.len(),
            name_lt(a@, b@) == name_lt(x@.skip(i as int), y@.skip(i as int)),
            x@ == a@,
            y@ == b@,
        decreases x@.len() - i,
    {
        proof {
            assert(x@.skip(i as int).drop_first() =~= x@.skip(i + 1));
            assert(y@.skip(i as int).drop_first() =~= y@.skip(i + 1));
        }
        i += 1;
    }
    if i == x.len() {
        i < y.len()
    } else if i == y.len() {
        false
    } else {
        x[i] < y[i]
    }
}

/// Records listed by name.
pub trait Named {
    /// The name the record is listed by.
    spec fn key(&self) -> Seq<char>;

    /// The name the record is listed by.
    fn name_str(&self) -> (res: &str)
        ensures
            res@ == self.key(),
    ;
}

/// The records are in order of name.
pub open spec fn sorted_by_name<T: Named>(s: Seq<T>) -> bool {
    forall|i: int, j: int| 0 <= i < j < s.len() ==> !name_lt(s[j].key(), s[i].key())
}

/// Where `x` goes among the records of `s`: before the first record whose
/// name it precedes, after all the others.
pub open spec fn insert_pos<T: Named>(s: Seq<T>, x: T) -> int
    decreases s.len(),
{
    if s.len() == 0 {
        0
    } else if name_lt(x.key(), s[0].key()) {
        0
    } else {
        1 + insert_pos(s.drop_first(), x)
    }
}

/// The records of `s` in order of name, those of equal name in their order
/// in `s`: each record in turn goes after every record already placed whose
/// name it does not precede.
pub open spec fn name_sorted<T: Named>(s: Seq<T>) -> Seq<T>
    decreases s.len(),
{
    if s.len() == 0 {
        Seq::empty()
    } else {
        let r = name_sorted(s.drop_last());
        r.insert(insert_pos(r, s.last()), s.last())
    }
}

/// Sorts records by name; records of equal name keep their order.
pub fn sort_by_name<T: Named>(v: Vec<T>) -> (res: Vec<T>)
    ensures
        res@ == name_sorted(v@),
        sorted_by_name(res@),
        res@.to_multiset() == v@.to_multiset(),
{
    broadcast use vstd::seq_lib::group_to_multiset_ensures;

    let ghost orig = v@;
    let ghost mut k: int = 0;
    let mut v = v;
    let mut res: Vec<T> = Vec::new();
    assert(orig.take(0) =~= Seq::<T>::empty());
    assert(orig.skip(0) =~= orig);
    while v.len() > 0
        invariant
            0 <= k <= orig.len(),
            v@ == orig.skip(k),
            res@ == name_sorted(orig.take(k)),
            sorted_by_name(res@),
            res@.to_multiset().add(v@.to_multiset()) == orig.to_multiset(),
        decreases v@.len(),
    {
        let ghost before = v@;
        let x = v.remove(0);
        proof {
            vstd::seq_lib::to_multiset_remove(before, 0);
        }
        let mut p: usize = 0;
        assert(res@.skip(0) =~= res@);
        while p < res.len() && !less(x.name_str(), res[p].name_str())
            invariant
                p <= res@.len(),
                forall|i: int| 0 <= i < p ==> !name_lt(x.key(), #[trigger] res@[i].key()),
                insert_pos(res@, x) == p + insert_pos(res@.skip(p as int), x),
            decreases res@.len() - p,
        {
            assert(res@.skip(p as int).drop_first() =~= res@.skip(p + 1));
            p += 1;
        }
        assert(insert_pos(res@, x) == p) by {
            if p == res.len() {
                assert(res@.skip(p as int).len() == 0);
            }
        }
        let ghost res_before = res@;
        proof {
            lemma_insert_sorted(res@, p as int, x);
            vstd::seq_lib::to_multiset_insert(res@, p as int, x);
            assert(orig.take(k + 1).drop_last() =~= orig.take(k));
            assert(orig.take(k + 1).last() == x);
            assert(v@ =~= orig.skip(k + 1));
            k = k + 1;
        }
        res.insert(p, x);
        proof {
            broadcast use vstd::multiset::group_multiset_axioms;
            vstd::seq_lib::to_multiset_contains(before, x);
            assert(before.to_multiset().count(x) > 0);
            assert(res@.to_multiset().add(v@.to_multiset()) =~= res_before.to_multiset().add(before.to_multiset()));
        }
    }
    proof {
        assert(v@.to_multiset() =~= vstd::multiset::Multiset::empty());
        assert(orig.take(k) =~= orig);
    }
    res
}

/// Inserting a record after every record whose name it does not precede,
/// and before one whose name it precedes, keeps the records in order.
pub proof fn lemma_insert_sorted<T: Named>(s: Seq<T>, p: int, x: T)
    requires
        sorted_by_name(s),
        0 <= p <= s.len(),
        forall|i: int| 0 <= i < p ==> !name_lt(x.key(), #[trigger] s[i].key()),
        p < s.len() ==> name_lt(x.key(), s[p].key()),
    ensures
        sorted_by_name(s.insert(p, x)),
{
    let t = s.insert(p, x);
    assert forall|i: int, j: int| 0 <= i < j < t.len() implies !name_lt(t[j].key(), t[i].key()) by {
        if i == p && j > p {
            if name_lt(t[j].key(), x.key()) {
                lemma_name_lt_transitive(s[j - 1].key(), x.key(), s[p].key());
                if j - 1 == p {
                    lemma_name_lt_irreflexive(s[p].key());
                }
            }
        }
    }
}

} // verus!
