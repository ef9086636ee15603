//! Splitting a sequence of records in two by a predicate, keeping order.

use vstd::prelude::*;

verus! {

/// The elements of `s` whose decision in `keep` is `b`, in order.
pub open spec fn select<T>(s: Seq<T>, keep: Seq<bool>, b: bool) -> Seq<T>
    decreases s.len(),
{
    if s.len() == 0 || keep.len() == 0 {
        Seq::empty()
    } else {
        let rest = select(s.drop_last(), keep.drop_last(), b);
        if keep.last() == b {
            rest.push(s.last())
        } else {
            rest
        }
    }
}

/// `keep` holds, for each element of `s`, what `pred` answered for it.
pub open spec fn decided_by<T, F: Fn(&T) -> bool>(pred: F, s: Seq<T>, keep: Seq<bool>) -> bool {
    keep.len() == s.len() && forall|i: int| 0 <= i < s.len() ==> pred.ensures((&s[i],), #[trigger] keep[i])
}

/// Where each decision is what `p` says of the element, and `q` says the opposite,
/// the kept elements are those `p` accepts and the others are those `q` accepts.
pub proof fn lemma_select_filter<T>(
    s: Seq<T>,
    keep: Seq<bool>,
    p: spec_fn(T) -> bool,
    q: spec_fn(T) -> bool,
)
    requires
        keep.len() == s.len(),
        forall|i: int| 0 <= i < s.len() ==> #[trigger] keep[i] == p(s[i]),
        forall|x: T| #[trigger] q(x) == !p(x),
    ensures
        select(s, keep, true) == s.filter(p),
        select(s, keep, false) == s.filter(q),
    decreases s.len(),
{
    reveal(Seq::filter);
    if s.len() > 0 {
        lemma_select_filter(s.drop_last(), keep.drop_last(), p, q);
    }
}

/// An element of a concatenation is an element of one of its parts.
pub proof fn lemma_concat_contains<T>(a: Seq<T>, b: Seq<T>, x: T)
    ensures
        (a + b).contains(x) <==> a.contains(x) || b.contains(x),
{
    if (a + b).contains(x) {
        let i = choose|i: int| 0 <= i < (a + b).len() && (a + b)[i] == x;
        if i < a.len() {
            assert(a[i] == x);
        } else {
            assert(b[i - a.len()] == x);
        }
    }
    if a.contains(x) {
        let i = choose|i: int| 0 <= i < a.len() && a[i] == x;
        assert((a + b)[i] == x);
    }
    if b.contains(x) {
        let i = choose|i: int| 0 <= i < b.len() && b[i] == x;
        assert((a + b)[a.len() + i] == x);
    }
}

/// The elements of `v` in reverse order.
pub fn reversed<T>(v: Vec<T>) -> (r: Vec<T>)
    ensures
        r@.len() == v@.len(),
        forall|k: int| 0 <= k < v@.len() ==> #[trigger] r@[k] == v@[v@.len() - 1 - k],
{
    let ghost orig = v@;
    let mut v = v;
    let mut r: Vec<T> = Vec::new();
    while v.len() > 0
        invariant
            v@ == orig.take(v@.len() as int),
            v@.len() <= orig.len(),
            r@.len() == orig.len() - v@.len(),
            forall|k: int| 0 <= k < r@.len() ==> #[trigger] r@[k] == orig[orig.len() - 1 - k],
        decreases v@.len(),
    {
        let x = v.pop().unwrap();
        r.push(x);
    }
    r
}

/// Splits `items` into those `pred` keeps and the others, both in the order they had.
pub fn partition<T, F: Fn(&T) -> bool>(items: Vec<T>, pred: &F) -> (r: (
    Vec<T>,
    Vec<T>,
    Ghost<Seq<bool>>,
))
    requires
        forall|t: &T| pred.requires((t,)),
    ensures
        decided_by(*pred, items@, r.2@),
        r.0@ == select(items@, r.2@, true),
        r.1@ == select(items@, r.2@, false),
{
    let ghost orig = items@;
    let n = items.len();
    let mut rev = reversed(items);
    let mut kept: Vec<T> = Vec::new();
    let mut drained: Vec<T> = Vec::new();
    let ghost mut keep: Seq<bool> = Seq::empty();
    let mut m: usize = 0;
    while m < n
        invariant
            n == orig.len(),
            m <= n,
            rev@.len() == n - m,
            forall|k: int| 0 <= k < rev@.len() ==> #[trigger] rev@[k] == orig[n - 1 - k],
            keep.len() == m,
            forall|i: int| 0 <= i < m ==> pred.ensures((&orig[i],), #[trigger] keep[i]),
            forall|t: &T| pred.requires((t,)),
            kept@ == select(orig.take(m as int), keep, true),
            drained@ == select(orig.take(m as int), keep, false),
        decreases n - m,
    {
        let x = rev.pop().unwrap();
        assert(x == orig[m as int]);
        let b = pred(&x);
        proof {
            let s1 = orig.take(m + 1);
            let k1 = keep.push(b);
            assert(s1.drop_last() =~= orig.take(m as int));
            assert(k1.drop_last() =~= keep);
            assert(s1.last() == x);
            keep = k1;
        }
        if b {
            kept.push(x);
        } else {
            drained.push(x);
        }
        m = m + 1;
    }
    assert(orig.take(n as int) =~= orig);
    (kept, drained, Ghost(keep))
}

} // verus!
