//! Sequences kept in order: what it means, and why the order leaves no choice.

use vstd::prelude::*;

verus! {

/// Every element stands before all that follow it.
pub open spec fn ordered_by<T>(s: Seq<T>, before: spec_fn(T, T) -> bool) -> bool {
    forall|i: int, j: int| 0 <= i < j < s.len() ==> #[trigger] before(s[i], s[j])
}

/// No two values stand before each other, and none before itself.
pub open spec fn asymmetric<T>(before: spec_fn(T, T) -> bool) -> bool {
    forall|a: T, b: T| !(#[trigger] before(a, b) && before(b, a))
}

/// The two sequences hold the same values.
pub open spec fn same_members<T>(x: Seq<T>, y: Seq<T>) -> bool {
    forall|m: T| #[trigger] x.contains(m) <==> #[trigger] y.contains(m)
}

/// What a sequence holds after one more value was put in.
pub proof fn lemma_insert_members<T>(s: Seq<T>, pos: int, x: T)
    requires
        0 <= pos <= s.len(),
    ensures
        forall|m: T| #[trigger] s.insert(pos, x).contains(m) <==> (s.contains(m) || m == x),
{
    let t = s.insert(pos, x);
    assert forall|m: T| #[trigger] t.contains(m) <==> (s.contains(m) || m == x) by {
        if t.contains(m) {
            let k = choose|k: int| 0 <= k < t.len() && t[k] == m;
            if k < pos {
                assert(s[k] == m);
            } else if k > pos {
                assert(s[k - 1] == m);
            }
        }
        if s.contains(m) {
            let k = choose|k: int| 0 <= k < s.len() && s[k] == m;
            if k < pos {
                assert(t[k] == m);
            } else {
                assert(t[k + 1] == m);
            }
        }
        if m == x {
            assert(t[pos] == m);
        }
    }
}

/// What a longer prefix holds beyond a shorter one.
pub proof fn lemma_take_members<T>(s: Seq<T>, i: int)
    requires
        0 <= i < s.len(),
    ensures
        forall|m: T| #[trigger] s.take(i + 1).contains(m) <==> (s.take(i).contains(m) || m == s[i]),
{
    let long = s.take(i + 1);
    let short = s.take(i);
    assert forall|m: T| #[trigger] long.contains(m) <==> (short.contains(m) || m == s[i]) by {
        if long.contains(m) {
            let k = choose|k: int| 0 <= k < long.len() && long[k] == m;
            if k < i {
                assert(short[k] == m);
            }
        }
        if short.contains(m) {
            let k = choose|k: int| 0 <= k < short.len() && short[k] == m;
            assert(long[k] == m);
        }
        if m == s[i] {
            assert(long[i] == m);
        }
    }
}

/// A value put where all before it stand before it, and it before all after
/// it, leaves the sequence in order.
pub proof fn lemma_insert_keeps_order<T>(
    s: Seq<T>,
    pos: int,
    x: T,
    before: spec_fn(T, T) -> bool,
)
    requires
        0 <= pos <= s.len(),
        ordered_by(s, before),
        forall|p: int| 0 <= p < pos ==> #[trigger] before(s[p], x),
        forall|q: int| pos <= q < s.len() ==> #[trigger] before(x, s[q]),
    ensures
        ordered_by(s.insert(pos, x), before),
{
    let t = s.insert(pos, x);
    assert forall|i: int, j: int| 0 <= i < j < t.len() implies #[trigger] before(t[i], t[j]) by {
        if j < pos {
            assert(before(s[i], s[j]));
        } else if j == pos {
            assert(before(s[i], x));
        } else if i < pos {
            assert(before(s[i], s[j - 1]));
        } else if i == pos {
            assert(before(x, s[j - 1]));
        } else {
            assert(before(s[i - 1], s[j - 1]));
        }
    }
}

/// Two sequences in the same order that hold the same values are one
/// sequence.
pub proof fn lemma_ordered_unique<T>(x: Seq<T>, y: Seq<T>, before: spec_fn(T, T) -> bool)
    requires
        ordered_by(x, before),
        ordered_by(y, before),
        same_members(x, y),
        asymmetric(before),
    ensures
        x == y,
    decreases x.len(),
{
    if x.len() == 0 {
        if y.len() > 0 {
            assert(y.contains(y[0]));
            assert(x.contains(y[0]));
        }
        assert(x =~= y);
    } else if y.len() == 0 {
        assert(x.contains(x[0]));
        assert(y.contains(x[0]));
    } else {
        let lx = x.last();
        let ly = y.last();
        assert(x.contains(lx));
        assert(y.contains(lx));
        let k = choose|k: int| 0 <= k < y.len() && y[k] == lx;
        if k != y.len() - 1 {
            assert(before(y[k], y[y.len() - 1]));
            assert(y.contains(ly));
            assert(x.contains(ly));
            let j = choose|j: int| 0 <= j < x.len() && x[j] == ly;
            if j != x.len() - 1 {
                assert(before(x[j], x[x.len() - 1]));
            }
            assert(false);
        }
        assert(ly == lx);
        let xs = x.drop_last();
        let ys = y.drop_last();
        assert forall|m: T| #[trigger] xs.contains(m) <==> #[trigger] ys.contains(m) by {
            if xs.contains(m) {
                let p = choose|p: int| 0 <= p < xs.len() && xs[p] == m;
                assert(before(x[p], x[x.len() - 1]));
                assert(x.contains(m));
                assert(y.contains(m));
                let q = choose|q: int| 0 <= q < y.len() && y[q] == m;
                assert(ys[q] == m);
            }
            if ys.contains(m) {
                let p = choose|p: int| 0 <= p < ys.len() && ys[p] == m;
                assert(before(y[p], y[y.len() - 1]));
                assert(y.contains(m));
                assert(x.contains(m));
                let q = choose|q: int| 0 <= q < x.len() && x[q] == m;
                assert(xs[q] == m);
            }
        }
        assert(ordered_by(xs, before)) by {
            assert forall|i: int, j: int| 0 <= i < j < xs.len() implies #[trigger] before(
                xs[i],
                xs[j],
            ) by {
                assert(before(x[i], x[j]));
            }
        }
        assert(ordered_by(ys, before)) by {
            assert forall|i: int, j: int| 0 <= i < j < ys.len() implies #[trigger] before(
                ys[i],
                ys[j],
            ) by {
                assert(before(y[i], y[j]));
            }
        }
        lemma_ordered_unique(xs, ys, before);
        assert(x =~= xs.push(lx));
        assert(y =~= ys.push(ly));
    }
}

} // verus!
