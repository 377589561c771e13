use std::sync::Arc;
use vstd::arithmetic::div_mod::lemma_div_denominator;
use vstd::arithmetic::power::{lemma_pow_positive, pow};
use vstd::prelude::*;

verus! {

/// Number of blocks of `f` items that cover `n` items.
pub open spec fn num_blocks(n: nat, f: nat) -> nat {
    if n % f == 0 {
        n / f
    } else {
        n / f + 1
    }
}

/// Number of blocks of `f` to the power `layer` items that cover `n` items.
pub open spec fn layer_blocks(n: nat, f: nat, layer: nat) -> nat
    decreases layer,
{
    if layer == 0 {
        n
    } else {
        num_blocks(layer_blocks(n, f, (layer - 1) as nat), f)
    }
}

/// Index of the block of `f` to the power `layer` items that holds item `j`.
pub open spec fn block_of(j: nat, f: nat, layer: nat) -> nat
    decreases layer,
{
    if layer == 0 {
        j
    } else {
        block_of(j, f, (layer - 1) as nat) / f
    }
}

/// Item `j` lies in block `j / f^layer`: the block of `f^layer` items that starts at a
/// multiple of `f^layer`.
pub proof fn lemma_block_of_is_division(j: nat, f: nat, layer: nat)
    requires
        f >= 1,
    ensures
        pow(f as int, layer) > 0,
        block_of(j, f, layer) == j as int / pow(f as int, layer),
        block_of(j, f, layer) * pow(f as int, layer) <= j < (block_of(j, f, layer) + 1) * pow(
            f as int,
            layer,
        ),
    decreases layer,
{
    reveal(pow);
    lemma_pow_positive(f as int, layer);
    let p = pow(f as int, layer);
    if layer == 0 {
        vstd::arithmetic::div_mod::lemma_div_basics(j as int);
    } else {
        let l1 = (layer - 1) as nat;
        let q = pow(f as int, l1);
        lemma_block_of_is_division(j, f, l1);
        lemma_pow_positive(f as int, l1);
        lemma_div_denominator(j as int, q, f as int);
        assert(p == f * q);
        assert(q * f == p) by (nonlinear_arith)
            requires
                p == f * q,
        ;
        assert(block_of(j, f, layer) == block_of(j, f, l1) / f);
        assert((j as int / q) / f as int == j as int / (q * f));
    }
    let b = j as int / p;
    assert(b * p <= j < (b + 1) * p) by (nonlinear_arith)
        requires
            p > 0,
            b == j as int / p,
            j >= 0,
    {
        vstd::arithmetic::div_mod::lemma_fundamental_div_mod(j as int, p);
    }
}

/// A predicate over the indices `0 .. length()` of a sequence, answered for one index
/// (`query_at`) and for a whole block of `FANOUT` to the power `layer` indices (`hiquery`,
/// with the block given by its index in that layer).
pub trait HiQuery<const N: usize, const FANOUT: usize>: Sized {
    spec fn wf(&self) -> bool;

    spec fn spec_length(&self) -> nat;

    spec fn spec_query_at(&self, i: int) -> bool;

    spec fn spec_hiquery(&self, layer: int, b: int) -> bool;

    fn length(&self) -> (r: usize)
        requires
            self.wf(),
        ensures
            r == self.spec_length(),
    ;

    fn query_at(&self, i: usize) -> (r: bool)
        requires
            self.wf(),
            i < self.spec_length(),
        ensures
            r == self.spec_query_at(i as int),
    ;

    fn hiquery(&self, layer: usize, b: usize) -> (r: bool)
        requires
            self.wf(),
            layer <= N,
            b < layer_blocks(self.spec_length(), FANOUT as nat, layer as nat),
        ensures
            r == self.spec_hiquery(layer as int, b as int),
    ;

    /// A well-formed query works on blocks of at least two items.
    proof fn lemma_fanout(&self)
        requires
            self.wf(),
        ensures
            FANOUT >= 2,
    ;

    /// At layer 0 a block is one index, and the bulk answer is the point answer.
    proof fn lemma_point_bulk(&self, i: int)
        requires
            self.wf(),
            0 <= i < self.spec_length(),
        ensures
            self.spec_hiquery(0, i) == self.spec_query_at(i),
    ;

    /// The bulk answer is `true` for every block that holds a matching index.
    proof fn lemma_bulk_sound(&self, layer: nat, j: nat)
        requires
            self.wf(),
            layer <= N,
            j < self.spec_length(),
            self.spec_query_at(j as int),
        ensures
            self.spec_hiquery(layer as int, block_of(j, FANOUT as nat, layer) as int),
    ;

    /// The first matching index at or after `i`, if there is one.
    fn findnext(&self, i: usize) -> (r: Option<usize>)
        requires
            self.wf(),
        ensures
            match r {
                Some(j) => i <= j < self.spec_length() && self.spec_query_at(j as int) && forall|k: int|
                    i <= k < j ==> !self.spec_query_at(k),
                None => forall|k: int| i <= k < self.spec_length() ==> !self.spec_query_at(k),
            },
    {
        let len = self.length();
        let mut pos = i;
        proof {
            self.lemma_fanout();
        }
        while pos < len
            invariant
                self.wf(),
                len == self.spec_length(),
                FANOUT >= 2,
                i <= pos,
                forall|k: int| i <= k < pos ==> !self.spec_query_at(k),
            decreases len - pos,
        {
            if self.query_at(pos) {
                return Some(pos);
            }
            let mut step: usize = 1;
            let mut l: usize = 0;
            let mut j: usize = pos;
            proof {
                self.lemma_point_bulk(pos as int);
            }
            // After a miss at `pos` the bulk answer at layer 0 is that miss, so the
            // ascent below never starts and the search moves on by one index.
            while l < N && j % FANOUT == 0 && self.hiquery(l, j)
                invariant
                    self.wf(),
                    len == self.spec_length(),
                    pos < len,
                    l == 0,
                    j == pos,
                    step == 1,
                    FANOUT >= 2,
                    !self.spec_hiquery(0, pos as int),
                decreases N - l,
            {
                l = l + 1;
                j = j / FANOUT;
                step = step * FANOUT;
            }
            pos = pos + step;
        }
        None
    }

    fn rc(self) -> (r: Arc<Self>)
        ensures
            *r == self,
    {
        Arc::new(self)
    }
}

/// Bulk soundness: when some index of block `b` of `FANOUT^layer` indices matches,
/// the bulk answer for that block is `true`, so `false` rules the whole block out.
pub proof fn lemma_bulk_false_is_conclusive<Q: HiQuery<N, FANOUT>, const N: usize, const FANOUT: usize>(
    q: &Q,
    layer: nat,
    b: nat,
    j: nat,
)
    requires
        q.wf(),
        layer <= N,
        b * pow(FANOUT as int, layer) <= j < (b + 1) * pow(FANOUT as int, layer),
        j < q.spec_length(),
        q.spec_query_at(j as int),
    ensures
        q.spec_hiquery(layer as int, b as int),
{
    q.lemma_fanout();
    lemma_block_of_is_division(j, FANOUT as nat, layer);
    let p = pow(FANOUT as int, layer);
    assert((b + 1) * p == b * p + p) by (nonlinear_arith);
    vstd::arithmetic::div_mod::lemma_fundamental_div_mod_converse(j as int, p, b as int, j - b * p);
    q.lemma_bulk_sound(layer, j);
}

/// Counting and walking the matches of a query.
pub trait HiQueryCount<const N: usize, const FANOUT: usize>: HiQuery<N, FANOUT> {
    /// The number of matching indices.
    fn count(&self) -> (r: usize)
        requires
            self.wf(),
        ensures
            r == count_matches::<N, FANOUT, Self>(self, 0, self.spec_length() as int),
    ;

    /// Walks the matching indices in increasing order.
    fn iter(&self) -> (r: HiQIter<'_, Self, N, FANOUT>)
        requires
            self.wf(),
        ensures
            r.query() == *self,
            r.position() == 0,
    ;
}

impl<Q: HiQuery<N, FANOUT>, const N: usize, const FANOUT: usize> HiQueryCount<N, FANOUT> for Q {
    fn count(&self) -> (r: usize) {
        let len = self.length();
        let mut n: usize = 0;
        let mut i: usize = 0;
        loop
            invariant
                self.wf(),
                len == self.spec_length(),
                i <= len,
                n == count_matches::<N, FANOUT, Self>(self, 0, i as int),
            decreases len - i,
        {
            proof {
                lemma_count_bound::<N, FANOUT, Self>(self, 0, i as int);
            }
            match self.findnext(i) {
                Some(j) => {
                    proof {
                        lemma_count_none::<N, FANOUT, Self>(self, 0, i as int, j as int);
                    }
                    i = j + 1;
                    n = n + 1;
                },
                None => {
                    proof {
                        lemma_count_none::<N, FANOUT, Self>(self, 0, i as int, len as int);
                    }
                    return n;
                },
            }
        }
    }

    fn iter(&self) -> (r: HiQIter<'_, Self, N, FANOUT>) {
        HiQIter { hq: self, i: 0 }
    }
}

/// The number of matching indices in `lo .. hi`.
pub open spec fn count_matches<const N: usize, const FANOUT: usize, Q: HiQuery<N, FANOUT>>(
    q: &Q,
    lo: int,
    hi: int,
) -> nat
    decreases hi - lo,
{
    if hi <= lo {
        0
    } else {
        count_matches::<N, FANOUT, Q>(q, lo, hi - 1) + if q.spec_query_at(hi - 1) {
            1nat
        } else {
            0nat
        }
    }
}

/// At most one match per index.
pub proof fn lemma_count_bound<const N: usize, const FANOUT: usize, Q: HiQuery<N, FANOUT>>(
    q: &Q,
    lo: int,
    hi: int,
)
    requires
        lo <= hi,
    ensures
        count_matches::<N, FANOUT, Q>(q, lo, hi) <= hi - lo,
    decreases hi - lo,
{
    if lo < hi {
        lemma_count_bound::<N, FANOUT, Q>(q, lo, hi - 1);
    }
}

/// Indices `mid .. hi` without a match add nothing to the count; with a match at `hi`
/// the count over `lo ..= hi` is one more.
pub proof fn lemma_count_none<const N: usize, const FANOUT: usize, Q: HiQuery<N, FANOUT>>(
    q: &Q,
    lo: int,
    mid: int,
    hi: int,
)
    requires
        lo <= mid <= hi,
        forall|k: int| mid <= k < hi ==> !q.spec_query_at(k),
    ensures
        count_matches::<N, FANOUT, Q>(q, lo, hi) == count_matches::<N, FANOUT, Q>(q, lo, mid),
        q.spec_query_at(hi) ==> count_matches::<N, FANOUT, Q>(q, lo, hi + 1) == count_matches::<
            N,
            FANOUT,
            Q,
        >(q, lo, mid) + 1,
    decreases hi - mid,
{
    if mid < hi {
        lemma_count_none::<N, FANOUT, Q>(q, lo, mid, hi - 1);
        assert(!q.spec_query_at(hi - 1));
    }
    assert(count_matches::<N, FANOUT, Q>(q, lo, hi + 1) == count_matches::<N, FANOUT, Q>(q, lo, hi)
        + if q.spec_query_at(hi) {
        1nat
    } else {
        0nat
    });
}

/// The count over `lo .. hi` splits at any `mid` in between.
pub proof fn lemma_count_split<const N: usize, const FANOUT: usize, Q: HiQuery<N, FANOUT>>(
    q: &Q,
    lo: int,
    mid: int,
    hi: int,
)
    requires
        lo <= mid <= hi,
    ensures
        count_matches::<N, FANOUT, Q>(q, lo, hi) == count_matches::<N, FANOUT, Q>(q, lo, mid)
            + count_matches::<N, FANOUT, Q>(q, mid, hi),
    decreases hi - mid,
{
    if mid < hi {
        lemma_count_split::<N, FANOUT, Q>(q, lo, mid, hi - 1);
    }
}

/// A cursor over the matching indices of a query, from a position on.
pub struct HiQIter<'a, Q: HiQuery<N, FANOUT>, const N: usize, const FANOUT: usize> {
    hq: &'a Q,
    i: usize,
}

impl<'a, Q: HiQuery<N, FANOUT>, const N: usize, const FANOUT: usize> HiQIter<'a, Q, N, FANOUT> {
    pub closed spec fn query(&self) -> Q {
        *self.hq
    }

    pub closed spec fn position(&self) -> nat {
        self.i as nat
    }

    /// The matches that are still to come.
    pub open spec fn remaining(&self) -> nat {
        count_matches::<N, FANOUT, Q>(&self.query(), self.position() as int, self.query().spec_length() as int)
    }

    /// The next matching index; each one comes after the last, and `None` once none is left.
    pub fn next(&mut self) -> (r: Option<usize>)
        requires
            old(self).query().wf(),
            old(self).position() <= old(self).query().spec_length(),
        ensures
            final(self).query() == old(self).query(),
            final(self).position() <= final(self).query().spec_length(),
            match r {
                Some(j) => {
                    &&& old(self).position() <= j
                    &&& final(self).position() == j + 1
                    &&& old(self).query().spec_query_at(j as int)
                    &&& forall|k: int| old(self).position() <= k < j ==> !old(self).query().spec_query_at(k)
                    &&& final(self).remaining() + 1 == old(self).remaining()
                },
                None => {
                    &&& final(self).position() == old(self).position()
                    &&& old(self).remaining() == 0
                },
            },
    {
        let q = self.hq;
        let n = q.length();
        let len = Ghost(n as int);
        let pos = Ghost(self.i as int);
        match q.findnext(self.i) {
            Some(j) => {
                proof {
                    lemma_count_split::<N, FANOUT, Q>(q, pos@, j + 1, len@);
                    lemma_count_none::<N, FANOUT, Q>(q, pos@, pos@, j as int);
                    lemma_count_split::<N, FANOUT, Q>(q, pos@, pos@, j + 1);
                }
                self.i = j + 1;
                Some(j)
            },
            None => {
                proof {
                    lemma_count_none::<N, FANOUT, Q>(q, pos@, pos@, len@);
                    lemma_count_split::<N, FANOUT, Q>(q, pos@, pos@, len@);
                }
                None
            },
        }
    }
}

/// A query that points to the negation of what another query points to.
pub trait NegatableQuery<const N: usize, const FANOUT: usize>: HiQuery<N, FANOUT> {
    type NegType: HiQuery<N, FANOUT>;

    fn negation(&self) -> (r: Self::NegType)
        requires
            self.wf(),
        ensures
            r.wf(),
            r.spec_length() == self.spec_length(),
            forall|i: int| 0 <= i < self.spec_length() ==> r.spec_query_at(i) == !self.spec_query_at(i),
    ;
}

/// Matches where both queries match.
#[derive(Clone)]
pub struct AndQuery<Q1, Q2, const N: usize, const FANOUT: usize> {
    q1: Arc<Q1>,
    q2: Arc<Q2>,
}

/// Matches where either query matches.
#[derive(Clone)]
pub struct OrQuery<Q1, Q2, const N: usize, const FANOUT: usize> {
    q1: Arc<Q1>,
    q2: Arc<Q2>,
}

impl<Q1, Q2, const N: usize, const FANOUT: usize> AndQuery<Q1, Q2, N, FANOUT> {
    pub closed spec fn first(&self) -> Q1 {
        *self.q1
    }

    pub closed spec fn second(&self) -> Q2 {
        *self.q2
    }
}

impl<Q1, Q2, const N: usize, const FANOUT: usize> OrQuery<Q1, Q2, N, FANOUT> {
    pub closed spec fn first(&self) -> Q1 {
        *self.q1
    }

    pub closed spec fn second(&self) -> Q2 {
        *self.q2
    }
}

/// The conjunction of two queries over sequences of one length.
pub fn and<Q1: HiQuery<N, FANOUT>, Q2: HiQuery<N, FANOUT>, const N: usize, const FANOUT: usize>(
    p: Arc<Q1>,
    q: Arc<Q2>,
) -> (r: AndQuery<Q1, Q2, N, FANOUT>)
    requires
        p.wf(),
        q.wf(),
        p.spec_length() == q.spec_length(),
    ensures
        r.wf(),
        r.first() == *p,
        r.second() == *q,
{
    AndQuery { q1: p, q2: q }
}

/// The disjunction of two queries over sequences of one length.
pub fn or<Q1: HiQuery<N, FANOUT>, Q2: HiQuery<N, FANOUT>, const N: usize, const FANOUT: usize>(
    p: Arc<Q1>,
    q: Arc<Q2>,
) -> (r: OrQuery<Q1, Q2, N, FANOUT>)
    requires
        p.wf(),
        q.wf(),
        p.spec_length() == q.spec_length(),
    ensures
        r.wf(),
        r.first() == *p,
        r.second() == *q,
{
    OrQuery { q1: p, q2: q }
}

impl<Q1, Q2, const N: usize, const FANOUT: usize> HiQuery<N, FANOUT> for AndQuery<Q1, Q2, N, FANOUT> where
    Q1: HiQuery<N, FANOUT>,
    Q2: HiQuery<N, FANOUT>,
 {
    open spec fn wf(&self) -> bool {
        self.first().wf() && self.second().wf() && self.first().spec_length()
            == self.second().spec_length()
    }

    open spec fn spec_length(&self) -> nat {
        self.first().spec_length()
    }

    open spec fn spec_query_at(&self, i: int) -> bool {
        self.first().spec_query_at(i) && self.second().spec_query_at(i)
    }

    open spec fn spec_hiquery(&self, layer: int, b: int) -> bool {
        self.first().spec_hiquery(layer, b) && self.second().spec_hiquery(layer, b)
    }

    fn length(&self) -> (r: usize) {
        self.q1.length()
    }

    fn query_at(&self, i: usize) -> (r: bool) {
        self.q1.query_at(i) && self.q2.query_at(i)
    }

    fn hiquery(&self, layer: usize, b: usize) -> (r: bool) {
        proof {
            assert(self.spec_hiquery(layer as int, b as int) == (self.first().spec_hiquery(layer as int, b as int) && self.second().spec_hiquery(layer as int, b as int)));
        }
        self.q1.hiquery(layer, b) && self.q2.hiquery(layer, b)
    }

    proof fn lemma_fanout(&self) {
        self.first().lemma_fanout();
    }

    proof fn lemma_point_bulk(&self, i: int) {
        self.first().lemma_point_bulk(i);
        self.second().lemma_point_bulk(i);
        assert(self.spec_hiquery(0, i) == (self.first().spec_hiquery(0, i) && self.second().spec_hiquery(0, i)));
        assert(self.spec_query_at(i) == (self.first().spec_query_at(i) && self.second().spec_query_at(i)));
    }

    proof fn lemma_bulk_sound(&self, layer: nat, j: nat) {
        self.first().lemma_bulk_sound(layer, j);
        self.second().lemma_bulk_sound(layer, j);
    }
}

impl<Q1, Q2, const N: usize, const FANOUT: usize> HiQuery<N, FANOUT> for OrQuery<Q1, Q2, N, FANOUT> where
    Q1: HiQuery<N, FANOUT>,
    Q2: HiQuery<N, FANOUT>,
 {
    open spec fn wf(&self) -> bool {
        self.first().wf() && self.second().wf() && self.first().spec_length()
            == self.second().spec_length()
    }

    open spec fn spec_length(&self) -> nat {
        self.first().spec_length()
    }

    open spec fn spec_query_at(&self, i: int) -> bool {
        self.first().spec_query_at(i) || self.second().spec_query_at(i)
    }

    open spec fn spec_hiquery(&self, layer: int, b: int) -> bool {
        self.first().spec_hiquery(layer, b) || self.second().spec_hiquery(layer, b)
    }

    fn length(&self) -> (r: usize) {
        self.q1.length()
    }

    fn query_at(&self, i: usize) -> (r: bool) {
        self.q1.query_at(i) || self.q2.query_at(i)
    }

    fn hiquery(&self, layer: usize, b: usize) -> (r: bool) {
        proof {
            assert(self.spec_hiquery(layer as int, b as int) == (self.first().spec_hiquery(layer as int, b as int) || self.second().spec_hiquery(layer as int, b as int)));
        }
        self.q1.hiquery(layer, b) || self.q2.hiquery(layer, b)
    }

    proof fn lemma_fanout(&self) {
        self.first().lemma_fanout();
    }

    proof fn lemma_point_bulk(&self, i: int) {
        self.first().lemma_point_bulk(i);
        self.second().lemma_point_bulk(i);
        assert(self.spec_hiquery(0, i) == (self.first().spec_hiquery(0, i) || self.second().spec_hiquery(0, i)));
        assert(self.spec_query_at(i) == (self.first().spec_query_at(i) || self.second().spec_query_at(i)));
    }

    proof fn lemma_bulk_sound(&self, layer: nat, j: nat) {
        if self.first().spec_query_at(j as int) {
            self.first().lemma_bulk_sound(layer, j);
        } else {
            self.second().lemma_bulk_sound(layer, j);
        }
    }
}

impl<Q1, Q2, const N: usize, const FANOUT: usize> NegatableQuery<N, FANOUT> for AndQuery<
    Q1,
    Q2,
    N,
    FANOUT,
> where Q1: NegatableQuery<N, FANOUT>, Q2: NegatableQuery<N, FANOUT> {
    type NegType = OrQuery<Q1::NegType, Q2::NegType, N, FANOUT>;

    fn negation(&self) -> (r: Self::NegType) {
        OrQuery { q1: self.q1.negation().rc(), q2: self.q2.negation().rc() }
    }
}

impl<Q1, Q2, const N: usize, const FANOUT: usize> NegatableQuery<N, FANOUT> for OrQuery<
    Q1,
    Q2,
    N,
    FANOUT,
> where Q1: NegatableQuery<N, FANOUT>, Q2: NegatableQuery<N, FANOUT> {
    type NegType = AndQuery<Q1::NegType, Q2::NegType, N, FANOUT>;

    fn negation(&self) -> (r: Self::NegType) {
        AndQuery { q1: self.q1.negation().rc(), q2: self.q2.negation().rc() }
    }
}

/// `and` is commutative over the point answers.
pub proof fn lemma_and_commutative<
    Q1: HiQuery<N, FANOUT>,
    Q2: HiQuery<N, FANOUT>,
    const N: usize,
    const FANOUT: usize,
>(pq: AndQuery<Q1, Q2, N, FANOUT>, qp: AndQuery<Q2, Q1, N, FANOUT>)
    requires
        pq.first() == qp.second(),
        pq.second() == qp.first(),
    ensures
        pq.wf() == qp.wf(),
        pq.wf() ==> pq.spec_length() == qp.spec_length(),
        forall|i: int| #[trigger] pq.spec_query_at(i) == qp.spec_query_at(i),
{
}

/// `or` is commutative over the point answers.
pub proof fn lemma_or_commutative<
    Q1: HiQuery<N, FANOUT>,
    Q2: HiQuery<N, FANOUT>,
    const N: usize,
    const FANOUT: usize,
>(pq: OrQuery<Q1, Q2, N, FANOUT>, qp: OrQuery<Q2, Q1, N, FANOUT>)
    requires
        pq.first() == qp.second(),
        pq.second() == qp.first(),
    ensures
        pq.wf() == qp.wf(),
        pq.wf() ==> pq.spec_length() == qp.spec_length(),
        forall|i: int| #[trigger] pq.spec_query_at(i) == qp.spec_query_at(i),
{
}

/// `and` is associative over the point answers.
pub proof fn lemma_and_associative<
    A: HiQuery<N, FANOUT>,
    B: HiQuery<N, FANOUT>,
    C: HiQuery<N, FANOUT>,
    const N: usize,
    const FANOUT: usize,
>(l: AndQuery<AndQuery<A, B, N, FANOUT>, C, N, FANOUT>, r: AndQuery<A, AndQuery<B, C, N, FANOUT>, N, FANOUT>)
    requires
        l.first().first() == r.first(),
        l.first().second() == r.second().first(),
        l.second() == r.second().second(),
    ensures
        l.spec_length() == r.spec_length(),
        forall|i: int| #[trigger] l.spec_query_at(i) == r.spec_query_at(i),
{
}

/// `or` is associative over the point answers.
pub proof fn lemma_or_associative<
    A: HiQuery<N, FANOUT>,
    B: HiQuery<N, FANOUT>,
    C: HiQuery<N, FANOUT>,
    const N: usize,
    const FANOUT: usize,
>(l: OrQuery<OrQuery<A, B, N, FANOUT>, C, N, FANOUT>, r: OrQuery<A, OrQuery<B, C, N, FANOUT>, N, FANOUT>)
    requires
        l.first().first() == r.first(),
        l.first().second() == r.second().first(),
        l.second() == r.second().second(),
    ensures
        l.spec_length() == r.spec_length(),
        forall|i: int| #[trigger] l.spec_query_at(i) == r.spec_query_at(i),
{
}

/// The negation of the negation of `p` points to what `p` points to.
pub proof fn lemma_double_negation<P, const N: usize, const FANOUT: usize>(
    p: P,
    np: P::NegType,
    nnp: <P::NegType as NegatableQuery<N, FANOUT>>::NegType,
) where P: NegatableQuery<N, FANOUT>, P::NegType: NegatableQuery<N, FANOUT>
    requires
        np.spec_length() == p.spec_length(),
        forall|i: int| 0 <= i < p.spec_length() ==> np.spec_query_at(i) == !p.spec_query_at(i),
        nnp.spec_length() == np.spec_length(),
        forall|i: int| 0 <= i < np.spec_length() ==> nnp.spec_query_at(i) == !np.spec_query_at(i),
    ensures
        nnp.spec_length() == p.spec_length(),
        forall|i: int| 0 <= i < p.spec_length() ==> nnp.spec_query_at(i) == p.spec_query_at(i),
{
}

/// De Morgan: the negation of `p and q` points to what `not p or not q` points to.
pub proof fn lemma_de_morgan<
    P: NegatableQuery<N, FANOUT>,
    Q: NegatableQuery<N, FANOUT>,
    const N: usize,
    const FANOUT: usize,
>(
    pq: AndQuery<P, Q, N, FANOUT>,
    not_pq: OrQuery<P::NegType, Q::NegType, N, FANOUT>,
    not_p_or_not_q: OrQuery<P::NegType, Q::NegType, N, FANOUT>,
)
    requires
        pq.wf(),
        not_pq.spec_length() == pq.spec_length(),
        forall|i: int| 0 <= i < pq.spec_length() ==> not_pq.spec_query_at(i) == !pq.spec_query_at(i),
        not_p_or_not_q.first().spec_length() == pq.first().spec_length(),
        forall|i: int|
            0 <= i < pq.spec_length() ==> not_p_or_not_q.first().spec_query_at(i)
                == !pq.first().spec_query_at(i),
        forall|i: int|
            0 <= i < pq.spec_length() ==> not_p_or_not_q.second().spec_query_at(i)
                == !pq.second().spec_query_at(i),
    ensures
        not_p_or_not_q.spec_length() == not_pq.spec_length(),
        forall|i: int|
            0 <= i < pq.spec_length() ==> not_pq.spec_query_at(i) == not_p_or_not_q.spec_query_at(i),
{
    assert forall|i: int| 0 <= i < pq.spec_length() implies not_pq.spec_query_at(i)
        == not_p_or_not_q.spec_query_at(i) by {
        assert(pq.spec_query_at(i) == (pq.first().spec_query_at(i) && pq.second().spec_query_at(i)));
        assert(not_p_or_not_q.spec_query_at(i) == (not_p_or_not_q.first().spec_query_at(i)
            || not_p_or_not_q.second().spec_query_at(i)));
    }
}

} // verus!
