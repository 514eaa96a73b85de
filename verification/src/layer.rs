//! The combinatorics of a layer: the vectors of a fixed length whose entries
//! are below a base `w` and add up to a fixed sum, in lexicographic order.

use vstd::prelude::*;

verus! {

/// The number of vectors of length `n` with entries in `[0, w-1]` that sum to `s`.
pub open spec fn layer_count(w: nat, n: nat, s: nat) -> nat
    decreases n, 0nat,
{
    if n == 0 {
        if s == 0 { 1 } else { 0 }
    } else {
        count_below(w, (n - 1) as nat, s, w)
    }
}

/// The number of vectors of length `n + 1` that sum to `s` and begin with `x`.
pub open spec fn count_with_first(w: nat, n: nat, s: nat, x: nat) -> nat
    decreases n, 1nat,
{
    if x <= s { layer_count(w, n, (s - x) as nat) } else { 0 }
}

/// The number of vectors of length `n + 1` that sum to `s` and begin with an
/// entry below `b`.
pub open spec fn count_below(w: nat, n: nat, s: nat, b: nat) -> nat
    decreases n, b + 2,
{
    if b == 0 {
        0
    } else {
        count_below(w, n, s, (b - 1) as nat) + count_with_first(w, n, s, (b - 1) as nat)
    }
}

/// The sum of the entries of a vector.
pub open spec fn vertex_sum(x: Seq<u16>) -> nat
    decreases x.len(),
{
    if x.len() == 0 { 0 } else { x[0] as nat + vertex_sum(x.drop_first()) }
}

/// `x` belongs to the layer of base `w`, length `n` and sum `s`.
pub open spec fn in_layer(x: Seq<u16>, w: nat, n: nat, s: nat) -> bool {
    &&& x.len() == n
    &&& forall|i: int| 0 <= i < x.len() ==> (#[trigger] x[i] as nat) < w
    &&& vertex_sum(x) == s
}

/// `a` comes strictly before `b` in lexicographic order (vectors of one length).
pub open spec fn lex_less(a: Seq<u16>, b: Seq<u16>) -> bool
    decreases a.len(),
{
    if a.len() == 0 || b.len() == 0 {
        false
    } else if a[0] != b[0] {
        a[0] < b[0]
    } else {
        lex_less(a.drop_first(), b.drop_first())
    }
}

/// `a` and `b` agree before position `k`, and there `a` holds the smaller entry.
pub open spec fn smaller_at(a: Seq<u16>, b: Seq<u16>, k: int) -> bool {
    &&& 0 <= k < a.len()
    &&& a[k] < b[k]
    &&& forall|j: int| 0 <= j < k ==> a[j] == b[j]
}

/// The first entry of the vector of rank `idx`: the least `x` at or above
/// `from` (and below `w`) such that fewer than `idx + 1` vectors begin below
/// `x + 1`.
pub open spec fn first_entry(w: nat, n: nat, s: nat, idx: nat, from: nat) -> nat
    decreases w - from,
{
    if from + 1 >= w || idx < count_below(w, n, s, from + 1) {
        from
    } else {
        first_entry(w, n, s, idx, from + 1)
    }
}

/// The vector of rank `idx` in the layer of base `w`, length `n` and sum `s`:
/// its first entry is fixed by how many vectors begin with a smaller one, and
/// the rest is the vector of the remaining rank in the layer of what is left.
pub open spec fn vertex_at(w: nat, n: nat, s: nat, idx: nat) -> Seq<u16>
    decreases n,
{
    if n == 0 {
        Seq::empty()
    } else {
        let x = first_entry(w, (n - 1) as nat, s, idx, 0);
        let before = count_below(w, (n - 1) as nat, s, x);
        seq![x as u16] + vertex_at(w, (n - 1) as nat, (s - x) as nat, (idx - before) as nat)
    }
}

/// The number of vectors of the layer that come before `x`.
pub open spec fn vertex_rank(w: nat, x: Seq<u16>, s: nat) -> nat
    decreases x.len(),
{
    if x.len() == 0 {
        0
    } else {
        count_below(w, (x.len() - 1) as nat, s, x[0] as nat)
            + vertex_rank(w, x.drop_first(), (s - x[0]) as nat)
    }
}

/// `count_below` grows with its bound.
pub proof fn lemma_count_below_monotone(w: nat, n: nat, s: nat, a: nat, b: nat)
    requires
        a <= b,
    ensures
        count_below(w, n, s, a) <= count_below(w, n, s, b),
    decreases b,
{
    if a < b {
        lemma_count_below_monotone(w, n, s, a, (b - 1) as nat);
    }
}

/// Entries above the sum begin no vector: beyond `s + 1` the count stays.
pub proof fn lemma_count_below_past_sum(w: nat, n: nat, s: nat, b: nat)
    requires
        b >= s + 1,
    ensures
        count_below(w, n, s, b) == count_below(w, n, s, s + 1),
    decreases b,
{
    if b > s + 1 {
        lemma_count_below_past_sum(w, n, s, (b - 1) as nat);
        assert(count_with_first(w, n, s, (b - 1) as nat) == 0);
        assert(count_below(w, n, s, b) == count_below(w, n, s, (b - 1) as nat)
            + count_with_first(w, n, s, (b - 1) as nat));
    }
}

/// The layer is not empty when the sum can be reached: `s <= n * (w - 1)`.
pub proof fn lemma_layer_count_positive(w: nat, n: nat, s: nat)
    requires
        w >= 1,
        s <= n * (w - 1),
    ensures
        layer_count(w, n, s) >= 1,
    decreases n,
{
    if n > 0 {
        let x: nat = if s <= w - 1 { s } else { (w - 1) as nat };
        let m = (n - 1) as nat;
        assert((s - x) <= m * (w - 1)) by (nonlinear_arith)
            requires
                s <= n * (w - 1),
                m == n - 1,
                x == if s <= w - 1 { s } else { (w - 1) as nat },
                w >= 1,
        ;
        lemma_layer_count_positive(w, m, (s - x) as nat);
        assert(count_with_first(w, m, s, x) >= 1);
        assert(count_below(w, m, s, x + 1) >= 1);
        lemma_count_below_monotone(w, m, s, x + 1, w);
    } else {
        assert(n * (w - 1) == 0) by (nonlinear_arith)
            requires
                n == 0,
        ;
    }
}

/// Where `first_entry` lands: between the counts on either side of it.
pub proof fn lemma_first_entry_bounds(w: nat, n: nat, s: nat, idx: nat, from: nat)
    requires
        from < w,
        count_below(w, n, s, from) <= idx < count_below(w, n, s, w),
    ensures
        from <= first_entry(w, n, s, idx, from) < w,
        count_below(w, n, s, first_entry(w, n, s, idx, from)) <= idx,
        idx < count_below(w, n, s, first_entry(w, n, s, idx, from) + 1),
    decreases w - from,
{
    if from + 1 >= w || idx < count_below(w, n, s, from + 1) {
    } else {
        lemma_first_entry_bounds(w, n, s, idx, from + 1);
    }
}

/// `first_entry` is the only entry whose counts enclose `idx`.
pub proof fn lemma_first_entry_unique(w: nat, n: nat, s: nat, idx: nat, from: nat, x: nat)
    requires
        from <= x < w,
        count_below(w, n, s, x) <= idx < count_below(w, n, s, x + 1),
    ensures
        first_entry(w, n, s, idx, from) == x,
    decreases x - from,
{
    if from < x {
        lemma_count_below_monotone(w, n, s, from + 1, x);
        lemma_first_entry_unique(w, n, s, idx, from + 1, x);
    }
}

/// Every rank below the size of the layer names a vector of the layer.
pub proof fn lemma_vertex_in_layer(w: nat, n: nat, s: nat, idx: nat)
    requires
        w <= 0x10000,
        idx < layer_count(w, n, s),
    ensures
        in_layer(vertex_at(w, n, s, idx), w, n, s),
    decreases n,
{
    if n > 0 {
        let m = (n - 1) as nat;
        assert(w > 0) by {
            if w == 0 {
                assert(count_below(w, m, s, 0) == 0);
            }
        }
        lemma_first_entry_bounds(w, m, s, idx, 0);
        let x = first_entry(w, m, s, idx, 0);
        let before = count_below(w, m, s, x);
        assert(count_with_first(w, m, s, x) > 0);
        let rest = vertex_at(w, m, (s - x) as nat, (idx - before) as nat);
        lemma_vertex_in_layer(w, m, (s - x) as nat, (idx - before) as nat);
        let v = vertex_at(w, n, s, idx);
        assert(v == seq![x as u16] + rest);
        assert(v.drop_first() =~= rest);
        assert(v[0] == x as u16);
        assert forall|i: int| 0 <= i < v.len() implies (#[trigger] v[i] as nat) < w by {
            if i > 0 {
                assert(v[i] == rest[i - 1]);
            }
        }
    }
}

/// `lex_less` is the lexicographic order: `a` comes before `b` exactly if
/// `a` holds the smaller entry at the first position where the two differ.
pub proof fn lemma_lex_less_first_difference(a: Seq<u16>, b: Seq<u16>)
    requires
        a.len() == b.len(),
    ensures
        lex_less(a, b) <==> exists|k: int| smaller_at(a, b, k),
    decreases a.len(),
{
    if a.len() > 0 {
        let ta = a.drop_first();
        let tb = b.drop_first();
        if a[0] != b[0] {
            if a[0] < b[0] {
                assert(smaller_at(a, b, 0));
            }
            assert forall|k: int| smaller_at(a, b, k) implies a[0] < b[0] by {
                if k > 0 {
                    assert(a[0] == b[0]);
                }
            }
        } else {
            lemma_lex_less_first_difference(ta, tb);
            if lex_less(ta, tb) {
                let k = choose|k: int| smaller_at(ta, tb, k);
                assert forall|j: int| 0 <= j < k + 1 implies a[j] == b[j] by {
                    if j > 0 {
                        assert(ta[j - 1] == tb[j - 1]);
                    }
                }
                assert(smaller_at(a, b, k + 1));
            }
            assert forall|k: int| smaller_at(a, b, k) implies lex_less(ta, tb) by {
                assert(k > 0);
                assert forall|j: int| 0 <= j < k - 1 implies ta[j] == tb[j] by {
                    assert(a[j + 1] == b[j + 1]);
                }
                assert(smaller_at(ta, tb, k - 1));
            }
        }
    }
}

/// A vector does not come before itself: what `lex_less` relates is distinct.
pub proof fn lemma_lex_less_distinct(a: Seq<u16>, b: Seq<u16>)
    requires
        lex_less(a, b),
    ensures
        a != b,
    decreases a.len(),
{
    if a.len() > 0 && b.len() > 0 && a[0] == b[0] {
        lemma_lex_less_distinct(a.drop_first(), b.drop_first());
    }
}

/// Ranks in growing order name vectors in lexicographic order: no vector is
/// named twice, and none before an earlier one.
pub proof fn lemma_vertex_order(w: nat, n: nat, s: nat, i: nat, j: nat)
    requires
        w <= 0x10000,
        i < j < layer_count(w, n, s),
    ensures
        lex_less(vertex_at(w, n, s, i), vertex_at(w, n, s, j)),
    decreases n,
{
    if n > 0 {
        let m = (n - 1) as nat;
        assert(w > 0) by {
            if w == 0 {
                assert(count_below(w, m, s, 0) == 0);
            }
        }
        lemma_first_entry_bounds(w, m, s, i, 0);
        lemma_first_entry_bounds(w, m, s, j, 0);
        let xi = first_entry(w, m, s, i, 0);
        let xj = first_entry(w, m, s, j, 0);
        let bi = count_below(w, m, s, xi);
        let bj = count_below(w, m, s, xj);
        let ri = vertex_at(w, m, (s - xi) as nat, (i - bi) as nat);
        let rj = vertex_at(w, m, (s - xj) as nat, (j - bj) as nat);
        let a = vertex_at(w, n, s, i);
        let b = vertex_at(w, n, s, j);
        assert(a == seq![xi as u16] + ri);
        assert(b == seq![xj as u16] + rj);
        assert(a.drop_first() =~= ri);
        assert(b.drop_first() =~= rj);
        if xj < xi {
            lemma_count_below_monotone(w, m, s, xj + 1, xi);
        }
        if xi == xj {
            assert(count_with_first(w, m, s, xi) > 0);
            lemma_vertex_order(w, m, (s - xi) as nat, (i - bi) as nat, (j - bj) as nat);
        }
    }
}

/// Every vector of the layer is named by its rank, which is below the size of
/// the layer: no vector is left out.
pub proof fn lemma_vertex_at_rank(w: nat, n: nat, s: nat, x: Seq<u16>)
    requires
        in_layer(x, w, n, s),
    ensures
        vertex_rank(w, x, s) < layer_count(w, n, s),
        vertex_at(w, n, s, vertex_rank(w, x, s)) == x,
    decreases n,
{
    if n > 0 {
        let m = (n - 1) as nat;
        let x0 = x[0] as nat;
        let rest = x.drop_first();
        assert(vertex_sum(x) == x0 + vertex_sum(rest));
        assert forall|i: int| 0 <= i < rest.len() implies (#[trigger] rest[i] as nat) < w by {
            assert(rest[i] == x[i + 1]);
        }
        assert(in_layer(rest, w, m, (s - x0) as nat));
        lemma_vertex_at_rank(w, m, (s - x0) as nat, rest);
        let r = vertex_rank(w, x, s);
        let before = count_below(w, m, s, x0);
        assert(r == before + vertex_rank(w, rest, (s - x0) as nat));
        assert(count_with_first(w, m, s, x0) == layer_count(w, m, (s - x0) as nat));
        assert(count_below(w, m, s, x0 + 1) == before + count_with_first(w, m, s, x0));
        lemma_count_below_monotone(w, m, s, x0 + 1, w);
        lemma_first_entry_unique(w, m, s, r, 0, x0);
        assert(vertex_at(w, n, s, r) =~= x);
    } else {
        assert(x =~= Seq::<u16>::empty());
    }
}

} // verus!
