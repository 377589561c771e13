use crate::hiqueries::{block_of, layer_blocks, num_blocks, HiQuery};
use crate::lattices::{lemma_join_lub, lemma_le_refl, lemma_le_trans, lemma_meet_glb, Lattice, LatticeRange};
use vstd::arithmetic::div_mod::{
    lemma_div_decreases, lemma_div_is_ordered, lemma_fundamental_div_mod,
    lemma_fundamental_div_mod_converse,
};
use vstd::prelude::*;

verus! {

/// Items `b * f .. (b + 1) * f` of `s`, cut short at its end.
pub open spec fn chunk<A>(s: Seq<A>, f: nat, b: int) -> Seq<A> {
    let lo = b * f;
    let hi = if lo + f <= s.len() {
        lo + f
    } else {
        s.len() as int
    };
    s.subrange(lo, hi)
}

/// The range of a non-empty run of items: a singleton range expanded by each next item.
pub open spec fn fold_expand<T: Lattice>(s: Seq<T>) -> LatticeRange<T>
    decreases s.len(),
{
    if s.len() <= 1 {
        LatticeRange { top: s[0], bottom: s[0] }
    } else {
        fold_expand(s.drop_last()).spec_expandby(s.last())
    }
}

/// The union of a non-empty run of ranges.
pub open spec fn fold_unite<T: Lattice>(s: Seq<LatticeRange<T>>) -> LatticeRange<T>
    decreases s.len(),
{
    if s.len() <= 1 {
        s[0]
    } else {
        fold_unite(s.drop_last()).spec_unite(s.last())
    }
}

/// Block `b` of layer `k` summarizes its chunk of the layer below, or of the table for layer 0.
pub open spec fn block_ok<T: Lattice>(
    table: Seq<T>,
    layers: Seq<Seq<LatticeRange<T>>>,
    f: nat,
    k: int,
    b: int,
) -> bool {
    layers[k][b] == if k == 0 {
        fold_expand(chunk(table, f, b))
    } else {
        fold_unite(chunk(layers[k - 1], f, b))
    }
}

/// Layer `k` has one block for each chunk of the layer below.
pub open spec fn layers_shaped<T>(n: nat, layers: Seq<Seq<LatticeRange<T>>>, f: nat) -> bool {
    forall|k: int| 0 <= k < layers.len() ==> #[trigger] layers[k].len() == layer_blocks(n, f, (k + 1) as nat)
}

/// The pyramid property: every block of every layer summarizes its chunk.
pub open spec fn pyramid<T: Lattice>(table: Seq<T>, layers: Seq<Seq<LatticeRange<T>>>, f: nat) -> bool {
    &&& layers_shaped(table.len(), layers, f)
    &&& forall|k: int, b: int|
        0 <= k < layers.len() && 0 <= b < layers[k].len() ==> #[trigger] block_ok(table, layers, f, k, b)
}

/// The pyramid property but for blocks `lo ..= hi` of layer `k` and blocks `nlo ..= nhi`
/// of layer `k + 1`.
pub open spec fn pyramid_except<T: Lattice>(
    table: Seq<T>,
    layers: Seq<Seq<LatticeRange<T>>>,
    f: nat,
    k: int,
    lo: int,
    hi: int,
    nlo: int,
    nhi: int,
) -> bool {
    &&& layers_shaped(table.len(), layers, f)
    &&& forall|kk: int, b: int|
        0 <= kk < layers.len() && 0 <= b < layers[kk].len() && !(kk == k && lo <= b <= hi) && !(kk
            == k + 1 && nlo <= b <= nhi) ==> #[trigger] block_ok(table, layers, f, kk, b)
}

/// The contents of a vector of vectors.
pub open spec fn rows<A>(v: Seq<Vec<A>>) -> Seq<Seq<A>> {
    Seq::new(v.len(), |k: int| v[k]@)
}

/// Block `b` starts inside the first `n` items exactly when it is one of the blocks that cover them.
proof fn lemma_block_start(n: nat, f: nat, b: nat)
    requires
        f >= 1,
    ensures
        (b < num_blocks(n, f)) == (b * f < n),
        num_blocks(n, f) <= n || f < 2,
{
    lemma_fundamental_div_mod(n as int, f as int);
    let q = n / f;
    let r = n % f;
    assert(n == f * q + r);
    if b < q {
        assert(b * f < n) by (nonlinear_arith)
            requires
                b < q,
                n == f * q + r,
                r >= 0,
                f >= 1,
        ;
    } else if b == q {
        assert(b * f == f * q) by (nonlinear_arith)
            requires
                b == q,
        ;
    } else {
        assert(b * f >= n) by (nonlinear_arith)
            requires
                b >= q + 1,
                n == f * q + r,
                r < f,
                f >= 1,
        ;
    }
    if f >= 2 {
        assert(num_blocks(n, f) <= n) by (nonlinear_arith)
            requires
                n == f * q + r,
                0 <= r < f,
                f >= 2,
                q >= 0,
                num_blocks(n, f) == if r == 0 {
                    q
                } else {
                    q + 1
                },
        ;
    }
}

/// Item `c` of `m` items lies in block `c / f`, one of the blocks that cover them.
proof fn lemma_block_holds(c: nat, m: nat, f: nat)
    requires
        f >= 1,
        c < m,
    ensures
        c / f < num_blocks(m, f),
        (c / f) * f <= c < (c / f) * f + f,
{
    lemma_fundamental_div_mod(c as int, f as int);
    assert((c / f) * f == f * (c / f)) by (nonlinear_arith);
    lemma_block_start(m, f, c / f);
}

/// A block that covers part of `n` items starts inside them.
proof fn lemma_chunk_start(n: nat, f: nat, b: int)
    requires
        f >= 1,
        0 <= b < num_blocks(n, f),
    ensures
        0 <= b * f < n,
{
    lemma_block_start(n, f, b as nat);
    assert(b * f >= 0) by (nonlinear_arith)
        requires
            b >= 0,
            f >= 1,
    ;
}

/// An item outside block `b` is not one of its chunk.
proof fn lemma_other_block(i: nat, f: nat, b: int)
    requires
        f >= 1,
        i / f != b,
    ensures
        i < b * f || i >= b * f + f,
{
    if b * f <= i < b * f + f {
        lemma_fundamental_div_mod_converse(i as int, f as int, b, i - b * f);
    }
}

/// A run summarized by `fold_expand` lies in its range.
proof fn lemma_fold_expand_contains<T: Lattice>(s: Seq<T>, p: int)
    requires
        0 <= p < s.len(),
    ensures
        fold_expand(s).spec_contains(s[p]),
    decreases s.len(),
{
    if s.len() == 1 {
        lemma_le_refl(s[0]);
    } else {
        let prev = fold_expand(s.drop_last());
        let x = s.last();
        lemma_meet_glb(prev.bottom, x, x);
        lemma_join_lub(prev.top, x, x);
        if p < s.len() - 1 {
            lemma_fold_expand_contains(s.drop_last(), p);
            lemma_le_trans(prev.bottom.meet_spec(x), prev.bottom, s[p]);
            lemma_le_trans(s[p], prev.top, prev.top.join_spec(x));
        }
    }
}

/// The union of a run of ranges holds each of them.
proof fn lemma_fold_unite_covers<T: Lattice>(s: Seq<LatticeRange<T>>, p: int)
    requires
        0 <= p < s.len(),
    ensures
        fold_unite(s).bottom.leq_spec(s[p].bottom),
        s[p].top.leq_spec(fold_unite(s).top),
    decreases s.len(),
{
    if s.len() == 1 {
        lemma_le_refl(s[0].bottom);
        lemma_le_refl(s[0].top);
    } else {
        let prev = fold_unite(s.drop_last());
        let x = s.last();
        lemma_meet_glb(prev.bottom, x.bottom, x.bottom);
        lemma_join_lub(prev.top, x.top, x.top);
        if p < s.len() - 1 {
            lemma_fold_unite_covers(s.drop_last(), p);
            lemma_le_trans(prev.bottom.meet_spec(x.bottom), prev.bottom, s[p].bottom);
            lemma_le_trans(s[p].top, prev.top, prev.top.join_spec(x.top));
        }
    }
}

/// Re-summarizing block `b` of layer `k` mends it; only the blocks above the window
/// `s ..= e` of layer `k` may still be stale.
proof fn lemma_repair_step<T: Lattice>(
    table: Seq<T>,
    layers: Seq<Seq<LatticeRange<T>>>,
    f: nat,
    k: int,
    s: int,
    b: int,
    e: int,
    r: LatticeRange<T>,
)
    requires
        f >= 1,
        0 <= k < layers.len(),
        0 <= s <= b <= e,
        e < layers[k].len(),
        pyramid_except(table, layers, f, k, b, e, s / f as int, e / f as int),
        r == if k == 0 {
            fold_expand(chunk(table, f, b))
        } else {
            fold_unite(chunk(layers[k - 1], f, b))
        },
    ensures
        pyramid_except(
            table,
            layers.update(k, layers[k].update(b, r)),
            f,
            k,
            b + 1,
            e,
            s / f as int,
            e / f as int,
        ),
{
    let after = layers.update(k, layers[k].update(b, r));
    lemma_div_is_ordered(s, b, f as int);
    lemma_div_is_ordered(b, e, f as int);
    assert forall|kk: int| 0 <= kk < after.len() implies #[trigger] after[kk].len() == layer_blocks(
        table.len(),
        f,
        (kk + 1) as nat,
    ) by {
        assert(layers[kk].len() == layer_blocks(table.len(), f, (kk + 1) as nat));
    }
    assert(after.len() == layers.len());
    assert forall|kk: int, bb: int|
        0 <= kk < after.len() && 0 <= bb < after[kk].len() && !(kk == k && b + 1 <= bb <= e) && !(kk
            == k + 1 && s / f as int <= bb <= e / f as int) implies #[trigger] block_ok(
        table,
        after,
        f,
        kk,
        bb,
    ) by {
        if kk == k && bb == b {
            if k > 0 {
                assert(after[k - 1] == layers[k - 1]);
            }
        } else if kk == k + 1 {
            lemma_other_block(b as nat, f, bb);
            assert(layers[k].len() == layer_blocks(table.len(), f, (k + 1) as nat));
            assert(layers[kk].len() == layer_blocks(table.len(), f, (kk + 1) as nat));
            lemma_chunk_start(layers[k].len(), f, bb);
            assert(chunk(after[k], f, bb) =~= chunk(layers[k], f, bb));
            assert(block_ok(table, layers, f, kk, bb));
        } else {
            assert(block_ok(table, layers, f, kk, bb));
            if kk > 0 {
                assert(after[kk - 1] == layers[kk - 1]);
            }
        }
    }
}

/// Once layer `k` is mended, only blocks of layer `k + 1` above its window may be stale.
proof fn lemma_repair_layer_done<T: Lattice>(
    table: Seq<T>,
    layers: Seq<Seq<LatticeRange<T>>>,
    f: nat,
    k: int,
    s: int,
    e: int,
)
    requires
        f >= 1,
        pyramid_except(table, layers, f, k, e + 1, e, s / f as int, e / f as int),
    ensures
        pyramid_except(
            table,
            layers,
            f,
            k + 1,
            s / f as int,
            e / f as int,
            (s / f as int) / f as int,
            (e / f as int) / f as int,
        ),
{
    assert forall|kk: int, bb: int|
        0 <= kk < layers.len() && 0 <= bb < layers[kk].len() && !(kk == k + 1 && s / f as int <= bb
            <= e / f as int) && !(kk == k + 2 && (s / f as int) / f as int <= bb <= (e / f as int)
            / f as int) implies #[trigger] block_ok(table, layers, f, kk, bb) by {
        assert(!(kk == k && e + 1 <= bb <= e));
    }
}

/// Changing item `i` of the table leaves every block sound but block `i / f` of layer 0.
proof fn lemma_table_update<T: Lattice>(
    table: Seq<T>,
    layers: Seq<Seq<LatticeRange<T>>>,
    f: nat,
    i: int,
    v: T,
)
    requires
        f >= 1,
        0 <= i < table.len(),
        pyramid(table, layers, f),
    ensures
        pyramid_except(
            table.update(i, v),
            layers,
            f,
            0,
            i / f as int,
            i / f as int,
            (i / f as int) / f as int,
            (i / f as int) / f as int,
        ),
{
    let after = table.update(i, v);
    assert forall|kk: int, bb: int|
        0 <= kk < layers.len() && 0 <= bb < layers[kk].len() && !(kk == 0 && i / f as int <= bb
            <= i / f as int) && !(kk == 1 && (i / f as int) / f as int <= bb <= (i / f as int)
            / f as int) implies #[trigger] block_ok(after, layers, f, kk, bb) by {
        assert(block_ok(table, layers, f, kk, bb));
        if kk == 0 {
            lemma_other_block(i as nat, f, bb);
            assert(layers[0].len() == layer_blocks(table.len(), f, 1));
            assert(layer_blocks(table.len(), f, 0) == table.len());
            lemma_chunk_start(table.len(), f, bb);
            assert(chunk(after, f, bb) =~= chunk(table, f, bb));
        }
    }
}

/// A sequence with its summary pyramid: layer 0 holds one range for each chunk of
/// `FANOUT` items, and each layer above one range for each chunk of `FANOUT` ranges below.
#[derive(Debug, Clone)]
pub struct HiVec<T, const N: usize, const FANOUT: usize> {
    table: Vec<T>,
    layers: Vec<Vec<LatticeRange<T>>>,
}

impl<T, const N: usize, const FANOUT: usize> View for HiVec<T, N, FANOUT> {
    type V = Seq<T>;

    closed spec fn view(&self) -> Seq<T> {
        self.table@
    }
}

impl<T: Lattice + Copy, const N: usize, const FANOUT: usize> HiVec<T, N, FANOUT> {
    /// The summary layers, lowest first.
    pub closed spec fn spec_layers(&self) -> Seq<Seq<LatticeRange<T>>> {
        rows(self.layers@)
    }

    pub open spec fn wf(&self) -> bool {
        &&& FANOUT >= 2
        &&& self.spec_layers().len() == N
        &&& pyramid(self@, self.spec_layers(), FANOUT as nat)
    }

    /// The range of chunk `b` of the table.
    fn fold_table_chunk(table: &Vec<T>, b: usize) -> (r: LatticeRange<T>)
        requires
            FANOUT >= 2,
            b < num_blocks(table@.len(), FANOUT as nat),
        ensures
            r == fold_expand(chunk(table@, FANOUT as nat, b as int)),
    {
        let n = table.len();
        proof {
            lemma_block_start(n as nat, FANOUT as nat, b as nat);
        }
        let lo = b * FANOUT;
        let hi = if n - lo <= FANOUT {
            n
        } else {
            lo + FANOUT
        };
        let mut r = LatticeRange::singleton(table[lo]);
        let mut i = lo + 1;
        assert(table@.subrange(lo as int, i as int).len() == 1);
        while i < hi
            invariant
                n == table@.len(),
                lo < i <= hi <= n,
                r == fold_expand(table@.subrange(lo as int, i as int)),
            decreases hi - i,
        {
            assert(table@.subrange(lo as int, i + 1).drop_last() =~= table@.subrange(lo as int, i as int));
            r = r.expandby(table[i]);
            i = i + 1;
        }
        r
    }

    /// The union of chunk `b` of a layer.
    fn fold_layer_chunk(layer: &Vec<LatticeRange<T>>, b: usize) -> (r: LatticeRange<T>)
        requires
            FANOUT >= 2,
            b < num_blocks(layer@.len(), FANOUT as nat),
        ensures
            r == fold_unite(chunk(layer@, FANOUT as nat, b as int)),
    {
        let n = layer.len();
        proof {
            lemma_block_start(n as nat, FANOUT as nat, b as nat);
        }
        let lo = b * FANOUT;
        let hi = if n - lo <= FANOUT {
            n
        } else {
            lo + FANOUT
        };
        let mut r = layer[lo];
        let mut i = lo + 1;
        assert(layer@.subrange(lo as int, i as int).len() == 1);
        while i < hi
            invariant
                n == layer@.len(),
                lo < i <= hi <= n,
                r == fold_unite(layer@.subrange(lo as int, i as int)),
            decreases hi - i,
        {
            assert(layer@.subrange(lo as int, i + 1).drop_last() =~= layer@.subrange(lo as int, i as int));
            r = r.unite(layer[i]);
            i = i + 1;
        }
        r
    }

    /// Layer 0 for a table.
    fn summarize_table(table: &Vec<T>) -> (r: Vec<LatticeRange<T>>)
        requires
            FANOUT >= 2,
        ensures
            r@.len() == num_blocks(table@.len(), FANOUT as nat),
            forall|b: int| 0 <= b < r@.len() ==> r@[b] == fold_expand(chunk(table@, FANOUT as nat, b)),
    {
        let n = table.len();
        proof {
            lemma_block_start(n as nat, FANOUT as nat, 0);
        }
        let nb = if n % FANOUT == 0 {
            n / FANOUT
        } else {
            n / FANOUT + 1
        };
        let mut out: Vec<LatticeRange<T>> = Vec::new();
        let mut b: usize = 0;
        while b < nb
            invariant
                FANOUT >= 2,
                n == table@.len(),
                nb == num_blocks(n as nat, FANOUT as nat),
                b <= nb,
                out@.len() == b,
                forall|c: int| 0 <= c < b ==> out@[c] == fold_expand(chunk(table@, FANOUT as nat, c)),
            decreases nb - b,
        {
            let r = Self::fold_table_chunk(table, b);
            out.push(r);
            b = b + 1;
        }
        out
    }

    /// The layer above `layer`.
    fn summarize_layer(layer: &Vec<LatticeRange<T>>) -> (r: Vec<LatticeRange<T>>)
        requires
            FANOUT >= 2,
        ensures
            r@.len() == num_blocks(layer@.len(), FANOUT as nat),
            forall|b: int| 0 <= b < r@.len() ==> r@[b] == fold_unite(chunk(layer@, FANOUT as nat, b)),
    {
        let n = layer.len();
        proof {
            lemma_block_start(n as nat, FANOUT as nat, 0);
        }
        let nb = if n % FANOUT == 0 {
            n / FANOUT
        } else {
            n / FANOUT + 1
        };
        let mut out: Vec<LatticeRange<T>> = Vec::new();
        let mut b: usize = 0;
        while b < nb
            invariant
                FANOUT >= 2,
                n == layer@.len(),
                nb == num_blocks(n as nat, FANOUT as nat),
                b <= nb,
                out@.len() == b,
                forall|c: int| 0 <= c < b ==> out@[c] == fold_unite(chunk(layer@, FANOUT as nat, c)),
            decreases nb - b,
        {
            let r = Self::fold_layer_chunk(layer, b);
            out.push(r);
            b = b + 1;
        }
        out
    }

    /// Builds the pyramid over `table`.
    pub fn new(table: Vec<T>) -> (r: Self)
        requires
            FANOUT >= 2,
        ensures
            r.wf(),
            r@ == table@,
    {
        let mut layers: Vec<Vec<LatticeRange<T>>> = Vec::new();
        let mut k: usize = 0;
        while k < N
            invariant
                FANOUT >= 2,
                k <= N,
                layers@.len() == k,
                pyramid(table@, rows(layers@), FANOUT as nat),
            decreases N - k,
        {
            let next = if k == 0 {
                Self::summarize_table(&table)
            } else {
                Self::summarize_layer(&layers[k - 1])
            };
            let ghost before = rows(layers@);
            layers.push(next);
            proof {
                let f = FANOUT as nat;
                let after = rows(layers@);
                assert(after =~= before.push(next@));
                let n = table@.len();
                assert(layer_blocks(n, f, (k + 1) as nat) == num_blocks(layer_blocks(n, f, k as nat), f));
                if k > 0 {
                    assert(before[k - 1] == layers@[k - 1]@);
                    assert(before[k - 1].len() == layer_blocks(n, f, k as nat));
                }
                assert(after[k as int].len() == layer_blocks(n, f, (k + 1) as nat));
                assert forall|kk: int, b: int|
                    0 <= kk < after.len() && 0 <= b < after[kk].len() implies #[trigger] block_ok(
                    table@,
                    after,
                    f,
                    kk,
                    b,
                ) by {
                    if kk < k {
                        assert(block_ok(table@, before, f, kk, b));
                    }
                }
            }
            k = k + 1;
        }
        HiVec { table, layers }
    }

    /// Sets block `b` of layer `k`.
    fn set_block(&mut self, k: usize, b: usize, r: LatticeRange<T>)
        requires
            k < old(self).spec_layers().len(),
            b < old(self).spec_layers()[k as int].len(),
        ensures
            final(self)@ == old(self)@,
            final(self).spec_layers() == old(self).spec_layers().update(
                k as int,
                old(self).spec_layers()[k as int].update(b as int, r),
            ),
    {
        let mut row: Vec<LatticeRange<T>> = Vec::new();
        std::mem::swap(&mut row, &mut self.layers[k]);
        row.set(b, r);
        std::mem::swap(&mut row, &mut self.layers[k]);
        assert(self.spec_layers() =~= old(self).spec_layers().update(
            k as int,
            old(self).spec_layers()[k as int].update(b as int, r),
        ));
    }

    /// Restores the pyramid property after a change to items `first ..= last`: the blocks
    /// over them are summarized again, layer after layer.
    fn repair_invariant(&mut self, first: usize, last: usize)
        requires
            FANOUT >= 2,
            old(self).spec_layers().len() == N,
            first <= last < old(self)@.len(),
            pyramid_except(
                old(self)@,
                old(self).spec_layers(),
                FANOUT as nat,
                0,
                first as int / FANOUT as int,
                last as int / FANOUT as int,
                (first as int / FANOUT as int) / FANOUT as int,
                (last as int / FANOUT as int) / FANOUT as int,
            ),
        ensures
            final(self).wf(),
            final(self)@ == old(self)@,
    {
        let ghost f = FANOUT as nat;
        let ghost n = self@.len();
        let len = self.table.len();
        let mut s: usize = first / FANOUT;
        let mut e: usize = last / FANOUT;
        proof {
            lemma_div_is_ordered(first as int, last as int, FANOUT as int);
            lemma_block_holds(last as nat, n, f);
            if N > 0 {
                assert(self.spec_layers()[0].len() == layer_blocks(n, f, 1));
                assert(layer_blocks(n, f, 0) == n);
            }
        }
        let mut k: usize = 0;
        while k < N
            invariant
                FANOUT >= 2,
                f == FANOUT,
                n == self@.len(),
                n == len,
                e < len,
                self@ == old(self)@,
                self.spec_layers().len() == N,
                k <= N,
                s <= e,
                k < N ==> e < self.spec_layers()[k as int].len(),
                k == 0 ==> e < num_blocks(n, f),
                pyramid_except(self@, self.spec_layers(), f, k as int, s as int, e as int, s as int / f as int, e as int / f as int),
            decreases N - k,
        {
            let ghost below_len = layer_blocks(n, f, k as nat);
            proof {
                assert(layer_blocks(n, f, (k + 1) as nat) == num_blocks(below_len, f));
                assert(self.spec_layers()[k as int].len() == layer_blocks(n, f, (k + 1) as nat));
                if k > 0 {
                    assert(self.spec_layers()[k - 1].len() == below_len);
                    assert(self.spec_layers()[k - 1] == self.layers@[k - 1]@);
                }
            }
            let mut b: usize = s;
            while b <= e
                invariant
                    FANOUT >= 2,
                    f == FANOUT,
                    n == self@.len(),
                    e < len,
                    self@ == old(self)@,
                    self.spec_layers().len() == N,
                    k < N,
                    s <= b <= e + 1,
                    e < self.spec_layers()[k as int].len(),
                    self.spec_layers()[k as int].len() == num_blocks(below_len, f),
                    k == 0 ==> below_len == n,
                    k > 0 ==> self.spec_layers()[k - 1].len() == below_len,
                    pyramid_except(self@, self.spec_layers(), f, k as int, b as int, e as int, s as int / f as int, e as int / f as int),
                decreases e + 1 - b,
            {
                let r = if k == 0 {
                    Self::fold_table_chunk(&self.table, b)
                } else {
                    assert(self.spec_layers()[k - 1] == self.layers@[k - 1]@);
                    Self::fold_layer_chunk(&self.layers[k - 1], b)
                };
                proof {
                    lemma_repair_step(self@, self.spec_layers(), f, k as int, s as int, b as int, e as int, r);
                }
                self.set_block(k, b, r);
                b = b + 1;
            }
            proof {
                lemma_repair_layer_done(self@, self.spec_layers(), f, k as int, s as int, e as int);
                if k + 1 < N {
                    lemma_block_holds(e as nat, self.spec_layers()[k as int].len(), f);
                    assert(self.spec_layers()[k + 1].len() == layer_blocks(n, f, (k + 2) as nat));
                }
                lemma_div_is_ordered(s as int, e as int, FANOUT as int);
                if e > 0 {
                    lemma_div_decreases(e as int, FANOUT as int);
                }
            }
            s = s / FANOUT;
            e = e / FANOUT;
            k = k + 1;
        }
        proof {
            let layers = self.spec_layers();
            assert forall|kk: int, bb: int|
                0 <= kk < layers.len() && 0 <= bb < layers[kk].len() implies #[trigger] block_ok(
                self@,
                layers,
                f,
                kk,
                bb,
            ) by {
                assert(kk != N && kk != N + 1);
            }
        }
    }

    pub fn len(&self) -> (r: usize)
        ensures
            r == self@.len(),
    {
        self.table.len()
    }

    pub fn get(&self, i: usize) -> (r: Option<&T>)
        ensures
            i < self@.len() ==> r == Some(&self@[i as int]),
            i >= self@.len() ==> r.is_none(),
    {
        if i < self.table.len() {
            Some(&self.table[i])
        } else {
            None
        }
    }

    /// Replaces item `i` by what `f` makes of it and restores the pyramid property.
    pub fn mutate<M: FnOnce(T) -> T>(&mut self, i: usize, f: M)
        requires
            old(self).wf(),
            i < old(self)@.len(),
            f.requires((old(self)@[i as int],)),
        ensures
            final(self).wf(),
            final(self)@ == old(self)@.update(i as int, final(self)@[i as int]),
            f.ensures((old(self)@[i as int],), final(self)@[i as int]),
    {
        let v = f(self.table[i]);
        proof {
            lemma_table_update(self@, self.spec_layers(), FANOUT as nat, i as int, v);
        }
        self.table.set(i, v);
        self.repair_invariant(i, i);
    }

    /// Item `j` lies in the range of each block above it.
    pub proof fn lemma_summary_contains(&self, k: nat, j: nat)
        requires
            self.wf(),
            k < N,
            j < self@.len(),
        ensures
            block_of(j, FANOUT as nat, k + 1) < self.spec_layers()[k as int].len(),
            self.spec_layers()[k as int][block_of(j, FANOUT as nat, k + 1) as int].spec_contains(
                self@[j as int],
            ),
        decreases k,
    {
        let f = FANOUT as nat;
        let n = self@.len();
        let layers = self.spec_layers();
        let c = block_of(j, f, k);
        let b = block_of(j, f, k + 1);
        let below_len = layer_blocks(n, f, k);
        if k == 0 {
            assert(c == j);
            assert(below_len == n);
        } else {
            self.lemma_summary_contains((k - 1) as nat, j);
            assert(layers[k - 1].len() == below_len);
        }
        lemma_block_holds(c, below_len, f);
        assert(layers[k as int].len() == layer_blocks(n, f, k + 1));
        assert(block_ok(self@, layers, f, k as int, b as int));
        let p = c - b * f;
        let x = self@[j as int];
        if k == 0 {
            let ch = chunk(self@, f, b as int);
            assert(ch[p] == x);
            lemma_fold_expand_contains(ch, p);
        } else {
            let ch = chunk(layers[k - 1], f, b as int);
            assert(ch[p] == layers[k - 1][c as int]);
            lemma_fold_unite_covers(ch, p);
            let sum = fold_unite(ch);
            lemma_le_trans(sum.bottom, ch[p].bottom, x);
            lemma_le_trans(x, ch[p].top, sum.top);
        }
    }

    /// The query for the items equal to `item`.
    pub fn query_equals(&self, item: T) -> (r: EqualsQuery<'_, T, N, FANOUT>)
        ensures
            r.spec_item() == item,
            r.hivec() == *self,
    {
        EqualsQuery { item, hiv: self }
    }

    /// The query for the items that lie in `range`.
    pub fn query_range(&self, range: LatticeRange<T>) -> (r: RangeQuery<'_, T, N, FANOUT>)
        ensures
            r.spec_range() == range,
            r.hivec() == *self,
    {
        RangeQuery { range, hiv: self }
    }

    /// Block `b` of layer `k`, for the queries.
    fn block(&self, k: usize, b: usize) -> (r: LatticeRange<T>)
        requires
            self.wf(),
            k < N,
            b < layer_blocks(self@.len(), FANOUT as nat, (k + 1) as nat),
        ensures
            r == self.spec_layers()[k as int][b as int],
    {
        assert(self.spec_layers()[k as int] == self.layers@[k as int]@);
        assert(self.spec_layers()[k as int].len() == layer_blocks(self@.len(), FANOUT as nat, (k + 1) as nat));
        self.layers[k][b]
    }
}

/// Matches the items equal to one value.
pub struct EqualsQuery<'a, T, const N: usize, const FANOUT: usize> {
    item: T,
    hiv: &'a HiVec<T, N, FANOUT>,
}

impl<'a, T, const N: usize, const FANOUT: usize> EqualsQuery<'a, T, N, FANOUT> {
    pub closed spec fn spec_item(&self) -> T {
        self.item
    }

    pub closed spec fn hivec(&self) -> HiVec<T, N, FANOUT> {
        *self.hiv
    }
}

impl<'a, T: Lattice + Copy, const N: usize, const FANOUT: usize> HiQuery<N, FANOUT> for EqualsQuery<
    'a,
    T,
    N,
    FANOUT,
> {
    open spec fn wf(&self) -> bool {
        self.hivec().wf()
    }

    open spec fn spec_length(&self) -> nat {
        self.hivec()@.len()
    }

    open spec fn spec_query_at(&self, i: int) -> bool {
        self.hivec()@[i] == self.spec_item()
    }

    /// Above layer 0, whether the block's range holds the value.
    open spec fn spec_hiquery(&self, layer: int, b: int) -> bool {
        if layer == 0 {
            self.hivec()@[b] == self.spec_item()
        } else {
            self.hivec().spec_layers()[layer - 1][b].spec_contains(self.spec_item())
        }
    }

    fn length(&self) -> (r: usize) {
        self.hiv.len()
    }

    fn query_at(&self, i: usize) -> (r: bool) {
        self.hiv.table[i].equals(&self.item)
    }

    fn hiquery(&self, layer: usize, b: usize) -> (r: bool) {
        if layer == 0 {
            proof {
                self.lemma_point_bulk(b as int);
            }
            self.query_at(b)
        } else {
            self.hiv.block(layer - 1, b).contains(&self.item)
        }
    }

    proof fn lemma_fanout(&self) {
    }

    proof fn lemma_point_bulk(&self, i: int) {
        assert(self.spec_query_at(i) == (self.hivec()@[i] == self.spec_item()));
        assert(self.spec_hiquery(0, i) == (self.hivec()@[i] == self.spec_item()));
    }

    proof fn lemma_bulk_sound(&self, layer: nat, j: nat) {
        if layer > 0 {
            self.hivec().lemma_summary_contains((layer - 1) as nat, j);
        }
    }
}

/// Matches the items that lie in a range.
pub struct RangeQuery<'a, T, const N: usize, const FANOUT: usize> {
    range: LatticeRange<T>,
    hiv: &'a HiVec<T, N, FANOUT>,
}

impl<'a, T, const N: usize, const FANOUT: usize> RangeQuery<'a, T, N, FANOUT> {
    pub closed spec fn spec_range(&self) -> LatticeRange<T> {
        self.range
    }

    pub closed spec fn hivec(&self) -> HiVec<T, N, FANOUT> {
        *self.hiv
    }
}

impl<'a, T: Lattice + Copy, const N: usize, const FANOUT: usize> HiQuery<N, FANOUT> for RangeQuery<
    'a,
    T,
    N,
    FANOUT,
> {
    open spec fn wf(&self) -> bool {
        self.hivec().wf()
    }

    open spec fn spec_length(&self) -> nat {
        self.hivec()@.len()
    }

    open spec fn spec_query_at(&self, i: int) -> bool {
        self.spec_range().spec_contains(self.hivec()@[i])
    }

    /// Above layer 0, whether the block's range meets the query's range.
    open spec fn spec_hiquery(&self, layer: int, b: int) -> bool {
        if layer == 0 {
            self.spec_range().spec_contains(self.hivec()@[b])
        } else {
            !self.hivec().spec_layers()[layer - 1][b].spec_intersect(self.spec_range()).spec_isempty()
        }
    }

    fn length(&self) -> (r: usize) {
        self.hiv.len()
    }

    fn query_at(&self, i: usize) -> (r: bool) {
        self.range.contains(&self.hiv.table[i])
    }

    fn hiquery(&self, layer: usize, b: usize) -> (r: bool) {
        if layer == 0 {
            proof {
                self.lemma_point_bulk(b as int);
            }
            self.query_at(b)
        } else {
            !self.hiv.block(layer - 1, b).intersect(self.range).isempty()
        }
    }

    proof fn lemma_fanout(&self) {
    }

    proof fn lemma_point_bulk(&self, i: int) {
        assert(self.spec_query_at(i) == self.spec_range().spec_contains(self.hivec()@[i]));
        assert(self.spec_hiquery(0, i) == self.spec_range().spec_contains(self.hivec()@[i]));
    }

    proof fn lemma_bulk_sound(&self, layer: nat, j: nat) {
        if layer > 0 {
            let hv = self.hivec();
            let k = (layer - 1) as nat;
            hv.lemma_summary_contains(k, j);
            let sum = hv.spec_layers()[k as int][block_of(j, FANOUT as nat, layer) as int];
            let r = self.spec_range();
            let x = hv@[j as int];
            lemma_join_lub(sum.bottom, r.bottom, x);
            lemma_meet_glb(sum.top, r.top, x);
            lemma_le_trans(sum.bottom.join_spec(r.bottom), x, sum.top.meet_spec(r.top));
        }
    }
}

} // verus!
