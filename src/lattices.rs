use core::cmp::Ordering;
use vstd::prelude::*;
use vstd::std_specs::cmp::PartialOrdSpec;
use vstd::string::StrSliceExecFns;

verus! {

/// A lattice: `join` is the least upper bound and `meet` the greatest lower bound
/// with respect to the partial order `leq`.
pub trait Lattice: Sized {
    spec fn join_spec(self, other: Self) -> Self;

    spec fn meet_spec(self, other: Self) -> Self;

    /// The partial order of the lattice.
    spec fn leq_spec(self, other: Self) -> bool;

    fn join(self, other: Self) -> (r: Self)
        ensures
            r == self.join_spec(other),
    ;

    fn meet(self, other: Self) -> (r: Self)
        ensures
            r == self.meet_spec(other),
    ;

    fn leq(&self, other: &Self) -> (r: bool)
        ensures
            r == self.leq_spec(*other),
    ;

    fn equals(&self, other: &Self) -> (r: bool)
        ensures
            r == (*self == *other),
    ;

    /// `join` and `meet` are commutative, associative and idempotent, obey absorption,
    /// and agree with the partial order: `a <= b` iff `a join b == b` iff `a meet b == a`.
    proof fn lemma_lattice_laws(a: Self, b: Self, c: Self)
        ensures
            a.join_spec(b) == b.join_spec(a),
            a.meet_spec(b) == b.meet_spec(a),
            a.join_spec(b).join_spec(c) == a.join_spec(b.join_spec(c)),
            a.meet_spec(b).meet_spec(c) == a.meet_spec(b.meet_spec(c)),
            a.join_spec(a) == a,
            a.meet_spec(a) == a,
            a.join_spec(a.meet_spec(b)) == a,
            a.meet_spec(a.join_spec(b)) == a,
            a.leq_spec(b) == (a.join_spec(b) == b),
            a.leq_spec(b) == (a.meet_spec(b) == a),
    ;
}

/// A lattice with a greatest element `top` and a least element `bot`.
pub trait BoundedLattice: Lattice {
    spec fn top_spec() -> Self;

    spec fn bot_spec() -> Self;

    fn top() -> (r: Self)
        ensures
            r == Self::top_spec(),
    ;

    fn bot() -> (r: Self)
        ensures
            r == Self::bot_spec(),
    ;

    /// Every element lies between `bot` and `top`.
    proof fn lemma_bounds(x: Self)
        ensures
            Self::bot_spec().leq_spec(x),
            x.leq_spec(Self::top_spec()),
    ;
}

/// `x <= x`.
pub proof fn lemma_le_refl<T: Lattice>(x: T)
    ensures
        x.leq_spec(x),
{
    T::lemma_lattice_laws(x, x, x);
}

/// `a <= b` and `b <= c` give `a <= c`.
pub proof fn lemma_le_trans<T: Lattice>(a: T, b: T, c: T)
    requires
        a.leq_spec(b),
        b.leq_spec(c),
    ensures
        a.leq_spec(c),
{
    T::lemma_lattice_laws(a, b, c);
    T::lemma_lattice_laws(b, c, a);
    T::lemma_lattice_laws(a, c, b);
}

/// `a join b` is an upper bound of `a` and of `b`, and lies below every common upper bound.
pub proof fn lemma_join_lub<T: Lattice>(a: T, b: T, x: T)
    ensures
        a.leq_spec(a.join_spec(b)),
        b.leq_spec(a.join_spec(b)),
        a.leq_spec(x) && b.leq_spec(x) ==> a.join_spec(b).leq_spec(x),
{
    T::lemma_lattice_laws(a, a, b);
    T::lemma_lattice_laws(a, b, b);
    T::lemma_lattice_laws(b, a, b);
    T::lemma_lattice_laws(a, a.join_spec(b), a);
    T::lemma_lattice_laws(b, a.join_spec(b), a);
    if a.leq_spec(x) && b.leq_spec(x) {
        T::lemma_lattice_laws(a, x, x);
        T::lemma_lattice_laws(b, x, x);
        T::lemma_lattice_laws(a, b, x);
        T::lemma_lattice_laws(a.join_spec(b), x, x);
    }
}

/// `a meet b` is a lower bound of `a` and of `b`, and lies above every common lower bound.
pub proof fn lemma_meet_glb<T: Lattice>(a: T, b: T, x: T)
    ensures
        a.meet_spec(b).leq_spec(a),
        a.meet_spec(b).leq_spec(b),
        x.leq_spec(a) && x.leq_spec(b) ==> x.leq_spec(a.meet_spec(b)),
{
    T::lemma_lattice_laws(a, a, b);
    T::lemma_lattice_laws(a, b, b);
    T::lemma_lattice_laws(b, a, b);
    T::lemma_lattice_laws(a.meet_spec(b), a, b);
    T::lemma_lattice_laws(a.meet_spec(b), b, a);
    T::lemma_lattice_laws(a, a.meet_spec(b), a);
    T::lemma_lattice_laws(b, a.meet_spec(b), a);
    if x.leq_spec(a) && x.leq_spec(b) {
        T::lemma_lattice_laws(x, a, b);
        T::lemma_lattice_laws(x, b, b);
        T::lemma_lattice_laws(x, a.meet_spec(b), b);
    }
}

impl Lattice for bool {
    open spec fn join_spec(self, other: bool) -> bool {
        self || other
    }

    open spec fn meet_spec(self, other: bool) -> bool {
        self && other
    }

    open spec fn leq_spec(self, other: bool) -> bool {
        !self || other
    }

    fn join(self, other: bool) -> (r: bool) {
        self || other
    }

    fn meet(self, other: bool) -> (r: bool) {
        self && other
    }

    fn leq(&self, other: &bool) -> (r: bool) {
        !*self || *other
    }

    fn equals(&self, other: &bool) -> (r: bool) {
        *self == *other
    }

    proof fn lemma_lattice_laws(a: bool, b: bool, c: bool) {
    }
}

impl BoundedLattice for bool {
    open spec fn top_spec() -> bool {
        true
    }

    open spec fn bot_spec() -> bool {
        false
    }

    fn top() -> (r: bool) {
        true
    }

    fn bot() -> (r: bool) {
        false
    }

    proof fn lemma_bounds(x: bool) {
    }
}

impl Lattice for u8 {
    open spec fn join_spec(self, other: u8) -> u8 {
        if self >= other { self } else { other }
    }

    open spec fn meet_spec(self, other: u8) -> u8 {
        if self <= other { self } else { other }
    }

    open spec fn leq_spec(self, other: u8) -> bool {
        self <= other
    }

    fn join(self, other: u8) -> (r: u8) {
        if self >= other { self } else { other }
    }

    fn meet(self, other: u8) -> (r: u8) {
        if self <= other { self } else { other }
    }

    fn leq(&self, other: &u8) -> (r: bool) {
        *self <= *other
    }

    fn equals(&self, other: &u8) -> (r: bool) {
        *self == *other
    }

    proof fn lemma_lattice_laws(a: u8, b: u8, c: u8) {
    }
}

impl BoundedLattice for u8 {
    open spec fn top_spec() -> u8 {
        u8::MAX
    }

    open spec fn bot_spec() -> u8 {
        u8::MIN
    }

    fn top() -> (r: u8) {
        u8::MAX
    }

    fn bot() -> (r: u8) {
        u8::MIN
    }

    proof fn lemma_bounds(x: u8) {
    }
}

impl Lattice for u16 {
    open spec fn join_spec(self, other: u16) -> u16 {
        if self >= other { self } else { other }
    }

    open spec fn meet_spec(self, other: u16) -> u16 {
        if self <= other { self } else { other }
    }

    open spec fn leq_spec(self, other: u16) -> bool {
        self <= other
    }

    fn join(self, other: u16) -> (r: u16) {
        if self >= other { self } else { other }
    }

    fn meet(self, other: u16) -> (r: u16) {
        if self <= other { self } else { other }
    }

    fn leq(&self, other: &u16) -> (r: bool) {
        *self <= *other
    }

    fn equals(&self, other: &u16) -> (r: bool) {
        *self == *other
    }

    proof fn lemma_lattice_laws(a: u16, b: u16, c: u16) {
    }
}

impl BoundedLattice for u16 {
    open spec fn top_spec() -> u16 {
        u16::MAX
    }

    open spec fn bot_spec() -> u16 {
        u16::MIN
    }

    fn top() -> (r: u16) {
        u16::MAX
    }

    fn bot() -> (r: u16) {
        u16::MIN
    }

    proof fn lemma_bounds(x: u16) {
    }
}

impl Lattice for u32 {
    open spec fn join_spec(self, other: u32) -> u32 {
        if self >= other { self } else { other }
    }

    open spec fn meet_spec(self, other: u32) -> u32 {
        if self <= other { self } else { other }
    }

    open spec fn leq_spec(self, other: u32) -> bool {
        self <= other
    }

    fn join(self, other: u32) -> (r: u32) {
        if self >= other { self } else { other }
    }

    fn meet(self, other: u32) -> (r: u32) {
        if self <= other { self } else { other }
    }

    fn leq(&self, other: &u32) -> (r: bool) {
        *self <= *other
    }

    fn equals(&self, other: &u32) -> (r: bool) {
        *self == *other
    }

    proof fn lemma_lattice_laws(a: u32, b: u32, c: u32) {
    }
}

impl BoundedLattice for u32 {
    open spec fn top_spec() -> u32 {
        u32::MAX
    }

    open spec fn bot_spec() -> u32 {
        u32::MIN
    }

    fn top() -> (r: u32) {
        u32::MAX
    }

    fn bot() -> (r: u32) {
        u32::MIN
    }

    proof fn lemma_bounds(x: u32) {
    }
}

impl Lattice for u64 {
    open spec fn join_spec(self, other: u64) -> u64 {
        if self >= other { self } else { other }
    }

    open spec fn meet_spec(self, other: u64) -> u64 {
        if self <= other { self } else { other }
    }

    open spec fn leq_spec(self, other: u64) -> bool {
        self <= other
    }

    fn join(self, other: u64) -> (r: u64) {
        if self >= other { self } else { other }
    }

    fn meet(self, other: u64) -> (r: u64) {
        if self <= other { self } else { other }
    }

    fn leq(&self, other: &u64) -> (r: bool) {
        *self <= *other
    }

    fn equals(&self, other: &u64) -> (r: bool) {
        *self == *other
    }

    proof fn lemma_lattice_laws(a: u64, b: u64, c: u64) {
    }
}

impl BoundedLattice for u64 {
    open spec fn top_spec() -> u64 {
        u64::MAX
    }

    open spec fn bot_spec() -> u64 {
        u64::MIN
    }

    fn top() -> (r: u64) {
        u64::MAX
    }

    fn bot() -> (r: u64) {
        u64::MIN
    }

    proof fn lemma_bounds(x: u64) {
    }
}

impl Lattice for usize {
    open spec fn join_spec(self, other: usize) -> usize {
        if self >= other { self } else { other }
    }

    open spec fn meet_spec(self, other: usize) -> usize {
        if self <= other { self } else { other }
    }

    open spec fn leq_spec(self, other: usize) -> bool {
        self <= other
    }

    fn join(self, other: usize) -> (r: usize) {
        if self >= other { self } else { other }
    }

    fn meet(self, other: usize) -> (r: usize) {
        if self <= other { self } else { other }
    }

    fn leq(&self, other: &usize) -> (r: bool) {
        *self <= *other
    }

    fn equals(&self, other: &usize) -> (r: bool) {
        *self == *other
    }

    proof fn lemma_lattice_laws(a: usize, b: usize, c: usize) {
    }
}

impl BoundedLattice for usize {
    open spec fn top_spec() -> usize {
        usize::MAX
    }

    open spec fn bot_spec() -> usize {
        usize::MIN
    }

    fn top() -> (r: usize) {
        usize::MAX
    }

    fn bot() -> (r: usize) {
        usize::MIN
    }

    proof fn lemma_bounds(x: usize) {
    }
}

impl Lattice for i8 {
    open spec fn join_spec(self, other: i8) -> i8 {
        if self >= other { self } else { other }
    }

    open spec fn meet_spec(self, other: i8) -> i8 {
        if self <= other { self } else { other }
    }

    open spec fn leq_spec(self, other: i8) -> bool {
        self <= other
    }

    fn join(self, other: i8) -> (r: i8) {
        if self >= other { self } else { other }
    }

    fn meet(self, other: i8) -> (r: i8) {
        if self <= other { self } else { other }
    }

    fn leq(&self, other: &i8) -> (r: bool) {
        *self <= *other
    }

    fn equals(&self, other: &i8) -> (r: bool) {
        *self == *other
    }

    proof fn lemma_lattice_laws(a: i8, b: i8, c: i8) {
    }
}

impl BoundedLattice for i8 {
    open spec fn top_spec() -> i8 {
        i8::MAX
    }

    open spec fn bot_spec() -> i8 {
        i8::MIN
    }

    fn top() -> (r: i8) {
        i8::MAX
    }

    fn bot() -> (r: i8) {
        i8::MIN
    }

    proof fn lemma_bounds(x: i8) {
    }
}

impl Lattice for i16 {
    open spec fn join_spec(self, other: i16) -> i16 {
        if self >= other { self } else { other }
    }

    open spec fn meet_spec(self, other: i16) -> i16 {
        if self <= other { self } else { other }
    }

    open spec fn leq_spec(self, other: i16) -> bool {
        self <= other
    }

    fn join(self, other: i16) -> (r: i16) {
        if self >= other { self } else { other }
    }

    fn meet(self, other: i16) -> (r: i16) {
        if self <= other { self } else { other }
    }

    fn leq(&self, other: &i16) -> (r: bool) {
        *self <= *other
    }

    fn equals(&self, other: &i16) -> (r: bool) {
        *self == *other
    }

    proof fn lemma_lattice_laws(a: i16, b: i16, c: i16) {
    }
}

impl BoundedLattice for i16 {
    open spec fn top_spec() -> i16 {
        i16::MAX
    }

    open spec fn bot_spec() -> i16 {
        i16::MIN
    }

    fn top() -> (r: i16) {
        i16::MAX
    }

    fn bot() -> (r: i16) {
        i16::MIN
    }

    proof fn lemma_bounds(x: i16) {
    }
}

impl Lattice for i32 {
    open spec fn join_spec(self, other: i32) -> i32 {
        if self >= other { self } else { other }
    }

    open spec fn meet_spec(self, other: i32) -> i32 {
        if self <= other { self } else { other }
    }

    open spec fn leq_spec(self, other: i32) -> bool {
        self <= other
    }

    fn join(self, other: i32) -> (r: i32) {
        if self >= other { self } else { other }
    }

    fn meet(self, other: i32) -> (r: i32) {
        if self <= other { self } else { other }
    }

    fn leq(&self, other: &i32) -> (r: bool) {
        *self <= *other
    }

    fn equals(&self, other: &i32) -> (r: bool) {
        *self == *other
    }

    proof fn lemma_lattice_laws(a: i32, b: i32, c: i32) {
    }
}

impl BoundedLattice for i32 {
    open spec fn top_spec() -> i32 {
        i32::MAX
    }

    open spec fn bot_spec() -> i32 {
        i32::MIN
    }

    fn top() -> (r: i32) {
        i32::MAX
    }

    fn bot() -> (r: i32) {
        i32::MIN
    }

    proof fn lemma_bounds(x: i32) {
    }
}

impl Lattice for i64 {
    open spec fn join_spec(self, other: i64) -> i64 {
        if self >= other { self } else { other }
    }

    open spec fn meet_spec(self, other: i64) -> i64 {
        if self <= other { self } else { other }
    }

    open spec fn leq_spec(self, other: i64) -> bool {
        self <= other
    }

    fn join(self, other: i64) -> (r: i64) {
        if self >= other { self } else { other }
    }

    fn meet(self, other: i64) -> (r: i64) {
        if self <= other { self } else { other }
    }

    fn leq(&self, other: &i64) -> (r: bool) {
        *self <= *other
    }

    fn equals(&self, other: &i64) -> (r: bool) {
        *self == *other
    }

    proof fn lemma_lattice_laws(a: i64, b: i64, c: i64) {
    }
}

impl BoundedLattice for i64 {
    open spec fn top_spec() -> i64 {
        i64::MAX
    }

    open spec fn bot_spec() -> i64 {
        i64::MIN
    }

    fn top() -> (r: i64) {
        i64::MAX
    }

    fn bot() -> (r: i64) {
        i64::MIN
    }

    proof fn lemma_bounds(x: i64) {
    }
}

impl Lattice for isize {
    open spec fn join_spec(self, other: isize) -> isize {
        if self >= other { self } else { other }
    }

    open spec fn meet_spec(self, other: isize) -> isize {
        if self <= other { self } else { other }
    }

    open spec fn leq_spec(self, other: isize) -> bool {
        self <= other
    }

    fn join(self, other: isize) -> (r: isize) {
        if self >= other { self } else { other }
    }

    fn meet(self, other: isize) -> (r: isize) {
        if self <= other { self } else { other }
    }

    fn leq(&self, other: &isize) -> (r: bool) {
        *self <= *other
    }

    fn equals(&self, other: &isize) -> (r: bool) {
        *self == *other
    }

    proof fn lemma_lattice_laws(a: isize, b: isize, c: isize) {
    }
}

impl BoundedLattice for isize {
    open spec fn top_spec() -> isize {
        isize::MAX
    }

    open spec fn bot_spec() -> isize {
        isize::MIN
    }

    fn top() -> (r: isize) {
        isize::MAX
    }

    fn bot() -> (r: isize) {
        isize::MIN
    }

    proof fn lemma_bounds(x: isize) {
    }
}

/// The free lattice over 32 atoms: a set of atoms held as the bits of a `u32`.
#[derive(Debug, Copy, Clone, PartialEq, Eq, Structural)]
pub struct FreeL32 {
    pub val: u32,
}

impl FreeL32 {
    pub fn new(i: u32) -> (r: Self)
        ensures
            r.val == i,
    {
        Self { val: i }
    }

    /// The set that holds atom `i` alone.
    pub fn generator(i: usize) -> (r: Self)
        requires
            i < 32,
        ensures
            r.val == 1u32 << i,
    {
        Self { val: 1u32 << i }
    }

    pub fn complement(&self) -> (r: Self)
        ensures
            r.val == !self.val,
    {
        Self { val: !self.val }
    }
}

/// Compares two sets of atoms by inclusion.
pub open spec fn freel32_cmp(a: u32, b: u32) -> Option<Ordering> {
    if a & !b == 0 && !a & b == 0 {
        Some(Ordering::Equal)
    } else if a & !b == 0 {
        Some(Ordering::Less)
    } else if !a & b == 0 {
        Some(Ordering::Greater)
    } else {
        None
    }
}

impl PartialOrd for FreeL32 {
    fn partial_cmp(&self, other: &Self) -> (r: Option<Ordering>) {
        let only_a = self.val & !other.val;
        let only_b = !self.val & other.val;
        if only_a == 0 && only_b == 0 {
            Some(Ordering::Equal)
        } else if only_a == 0 {
            Some(Ordering::Less)
        } else if only_b == 0 {
            Some(Ordering::Greater)
        } else {
            None
        }
    }
}

impl vstd::std_specs::cmp::PartialOrdSpecImpl for FreeL32 {
    open spec fn obeys_partial_cmp_spec() -> bool {
        true
    }

    open spec fn partial_cmp_spec(&self, other: &Self) -> Option<Ordering> {
        freel32_cmp(self.val, other.val)
    }
}

impl Lattice for FreeL32 {
    open spec fn join_spec(self, other: Self) -> Self {
        FreeL32 { val: self.val | other.val }
    }

    open spec fn meet_spec(self, other: Self) -> Self {
        FreeL32 { val: self.val & other.val }
    }

    open spec fn leq_spec(self, other: Self) -> bool {
        self.val & !other.val == 0
    }

    fn join(self, other: Self) -> (r: Self) {
        Self { val: self.val | other.val }
    }

    fn meet(self, other: Self) -> (r: Self) {
        Self { val: self.val & other.val }
    }

    fn leq(&self, other: &Self) -> (r: bool) {
        self.val & !other.val == 0
    }

    fn equals(&self, other: &Self) -> (r: bool) {
        self.val == other.val
    }

    proof fn lemma_lattice_laws(a: Self, b: Self, c: Self) {
        let (x, y, z) = (a.val, b.val, c.val);
        assert(x | y == y | x && x & y == y & x && (x | y) | z == x | (y | z) && (x & y) & z == x
            & (y & z)) by (bit_vector);
        assert(x | x == x && x & x == x && x | (x & y) == x && x & (x | y) == x) by (bit_vector);
        assert((x & !y == 0) == (x | y == y) && (x & !y == 0) == (x & y == x)) by (bit_vector);
    }
}

impl BoundedLattice for FreeL32 {
    open spec fn top_spec() -> Self {
        FreeL32 { val: u32::MAX }
    }

    open spec fn bot_spec() -> Self {
        FreeL32 { val: 0 }
    }

    fn top() -> (r: Self) {
        Self { val: u32::MAX }
    }

    fn bot() -> (r: Self) {
        Self { val: 0 }
    }

    proof fn lemma_bounds(x: Self) {
        let v = x.val;
        assert(0u32 & !v == 0 && v & !u32::MAX == 0) by (bit_vector);
    }
}

/// `partial_cmp` agrees with the lattice order, and when `a` compares below `b`,
/// joining the two gives `b` and meeting them gives `a`.
pub proof fn lemma_freel32_order(a: FreeL32, b: FreeL32)
    ensures
        (a.partial_cmp_spec(&b) matches Some(Ordering::Less | Ordering::Equal)) == a.leq_spec(b),
        a.partial_cmp_spec(&b) == Some(Ordering::Less) ==> a.join_spec(b) == b && a.meet_spec(b)
            == a,
{
    FreeL32::lemma_lattice_laws(a, b, b);
}

/// The free lattice over 64 atoms: a set of atoms held as the bits of a `u64`.
#[derive(Debug, Copy, Clone, PartialEq, Eq, Structural)]
pub struct FreeL64 {
    pub val: u64,
}

impl FreeL64 {
    pub fn new(i: u64) -> (r: Self)
        ensures
            r.val == i,
    {
        Self { val: i }
    }

    /// The set that holds atom `i` alone.
    pub fn generator(i: usize) -> (r: Self)
        requires
            i < 64,
        ensures
            r.val == 1u64 << i,
    {
        Self { val: 1u64 << i }
    }

    pub fn complement(&self) -> (r: Self)
        ensures
            r.val == !self.val,
    {
        Self { val: !self.val }
    }
}

/// Compares two sets of atoms by inclusion.
pub open spec fn freel64_cmp(a: u64, b: u64) -> Option<Ordering> {
    if a & !b == 0 && !a & b == 0 {
        Some(Ordering::Equal)
    } else if a & !b == 0 {
        Some(Ordering::Less)
    } else if !a & b == 0 {
        Some(Ordering::Greater)
    } else {
        None
    }
}

impl PartialOrd for FreeL64 {
    fn partial_cmp(&self, other: &Self) -> (r: Option<Ordering>) {
        let only_a = self.val & !other.val;
        let only_b = !self.val & other.val;
        if only_a == 0 && only_b == 0 {
            Some(Ordering::Equal)
        } else if only_a == 0 {
            Some(Ordering::Less)
        } else if only_b == 0 {
            Some(Ordering::Greater)
        } else {
            None
        }
    }
}

impl vstd::std_specs::cmp::PartialOrdSpecImpl for FreeL64 {
    open spec fn obeys_partial_cmp_spec() -> bool {
        true
    }

    open spec fn partial_cmp_spec(&self, other: &Self) -> Option<Ordering> {
        freel64_cmp(self.val, other.val)
    }
}

impl Lattice for FreeL64 {
    open spec fn join_spec(self, other: Self) -> Self {
        FreeL64 { val: self.val | other.val }
    }

    open spec fn meet_spec(self, other: Self) -> Self {
        FreeL64 { val: self.val & other.val }
    }

    open spec fn leq_spec(self, other: Self) -> bool {
        self.val & !other.val == 0
    }

    fn join(self, other: Self) -> (r: Self) {
        Self { val: self.val | other.val }
    }

    fn meet(self, other: Self) -> (r: Self) {
        Self { val: self.val & other.val }
    }

    fn leq(&self, other: &Self) -> (r: bool) {
        self.val & !other.val == 0
    }

    fn equals(&self, other: &Self) -> (r: bool) {
        self.val == other.val
    }

    proof fn lemma_lattice_laws(a: Self, b: Self, c: Self) {
        let (x, y, z) = (a.val, b.val, c.val);
        assert(x | y == y | x && x & y == y & x && (x | y) | z == x | (y | z) && (x & y) & z == x
            & (y & z)) by (bit_vector);
        assert(x | x == x && x & x == x && x | (x & y) == x && x & (x | y) == x) by (bit_vector);
        assert((x & !y == 0) == (x | y == y) && (x & !y == 0) == (x & y == x)) by (bit_vector);
    }
}

impl BoundedLattice for FreeL64 {
    open spec fn top_spec() -> Self {
        FreeL64 { val: u64::MAX }
    }

    open spec fn bot_spec() -> Self {
        FreeL64 { val: 0 }
    }

    fn top() -> (r: Self) {
        Self { val: u64::MAX }
    }

    fn bot() -> (r: Self) {
        Self { val: 0 }
    }

    proof fn lemma_bounds(x: Self) {
        let v = x.val;
        assert(0u64 & !v == 0 && v & !u64::MAX == 0) by (bit_vector);
    }
}

/// `partial_cmp` agrees with the lattice order, and when `a` compares below `b`,
/// joining the two gives `b` and meeting them gives `a`.
pub proof fn lemma_freel64_order(a: FreeL64, b: FreeL64)
    ensures
        (a.partial_cmp_spec(&b) matches Some(Ordering::Less | Ordering::Equal)) == a.leq_spec(b),
        a.partial_cmp_spec(&b) == Some(Ordering::Less) ==> a.join_spec(b) == b && a.meet_spec(b)
            == a,
{
    FreeL64::lemma_lattice_laws(a, b, b);
}

/// Bit index of a character in an `AlphaNumSet`: digits take 0 to 9, upper case letters
/// 10 to 35, lower case letters 36 to 61, any other ASCII character 62, the rest 63.
pub open spec fn alphanum_offset(ch: char) -> u8 {
    let c = ch as u32;
    if '0' as u32 <= c && c <= '9' as u32 {
        (c - '0' as u32) as u8
    } else if 'A' as u32 <= c && c <= 'Z' as u32 {
        (c - 'A' as u32 + 10) as u8
    } else if 'a' as u32 <= c && c <= 'z' as u32 {
        (c - 'a' as u32 + 36) as u8
    } else if c < 128 {
        62
    } else {
        63
    }
}

/// The character that stands for a bit index of an `AlphaNumSet`.
pub open spec fn alphanum_char(n: u8) -> char {
    if n <= 9 {
        (n + '0' as u8) as char
    } else if n <= 35 {
        (n - 10 + 'A' as u8) as char
    } else if n <= 61 {
        (n - 36 + 'a' as u8) as char
    } else if n == 62 {
        ':'
    } else {
        '?'
    }
}

pub fn alphanum_to_u8offset(ch: char) -> (r: u8)
    ensures
        r == alphanum_offset(ch),
        r < 64,
{
    let c = ch as u32;
    if '0' as u32 <= c && c <= '9' as u32 {
        (c - '0' as u32) as u8
    } else if 'A' as u32 <= c && c <= 'Z' as u32 {
        (c - 'A' as u32 + 10) as u8
    } else if 'a' as u32 <= c && c <= 'z' as u32 {
        (c - 'a' as u32 + 36) as u8
    } else if c < 128 {
        62
    } else {
        63
    }
}

pub fn u8offset_to_alphanum(n: u8) -> (r: char)
    ensures
        r == alphanum_char(n),
{
    if n <= 9 {
        (n + '0' as u8) as char
    } else if n <= 35 {
        (n - 10 + 'A' as u8) as char
    } else if n <= 61 {
        (n - 36 + 'a' as u8) as char
    } else if n == 62 {
        ':'
    } else {
        '?'
    }
}

/// The bits of the characters of `s`, united.
pub open spec fn alphanum_mask(s: Seq<char>) -> u64
    decreases s.len(),
{
    if s.len() == 0 {
        0
    } else {
        alphanum_mask(s.drop_last()) | (1u64 << alphanum_offset(s.last()))
    }
}

/// The characters that stand for the set bits of `v` below `n`, in bit order.
pub open spec fn alphanum_render(v: u64, n: nat) -> Seq<char>
    decreases n,
{
    if n == 0 {
        seq![]
    } else {
        let i = (n - 1) as nat;
        let rest = alphanum_render(v, i);
        if v & (1u64 << i) != 0 {
            rest.push(alphanum_char(i as u8))
        } else {
            rest
        }
    }
}

/// A set of characters, kept as the classes of `alphanum_offset`.
#[derive(Debug, Copy, Clone, PartialEq, Eq, Structural)]
pub struct AlphaNumSet {
    pub val: FreeL64,
}

impl AlphaNumSet {
    /// The set of the classes of the characters of `s`.
    pub fn new(s: &str) -> (r: Self)
        ensures
            r.val.val == alphanum_mask(s@),
    {
        let n = s.unicode_len();
        let mut bs: u64 = 0;
        let mut i: usize = 0;
        while i < n
            invariant
                n == s@.len(),
                i <= n,
                bs == alphanum_mask(s@.subrange(0, i as int)),
            decreases n - i,
        {
            let ch = s.get_char(i);
            let off = alphanum_to_u8offset(ch);
            assert(s@.subrange(0, i + 1).drop_last() == s@.subrange(0, i as int));
            bs = bs | (1u64 << off);
            i = i + 1;
        }
        assert(s@.subrange(0, n as int) == s@);
        Self { val: FreeL64::new(bs) }
    }

    pub fn singleton(ch: char) -> (r: Self)
        ensures
            r.val.val == 1u64 << alphanum_offset(ch),
    {
        Self { val: FreeL64::generator(alphanum_to_u8offset(ch) as usize) }
    }

    pub fn complement(&self) -> (r: Self)
        ensures
            r.val.val == !self.val.val,
    {
        Self { val: self.val.complement() }
    }

    /// One character for each set bit, in bit order.
    pub fn render(&self) -> (r: Vec<char>)
        ensures
            r@ == alphanum_render(self.val.val, 64),
    {
        let v: u64 = self.val.val;
        let mut out: Vec<char> = Vec::new();
        let mut i: u8 = 0;
        while i < 64
            invariant
                i <= 64,
                v == self.val.val,
                out@ == alphanum_render(v, i as nat),
            decreases 64 - i,
        {
            if v & (1u64 << i) != 0 {
                out.push(u8offset_to_alphanum(i));
            }
            i = i + 1;
        }
        out
    }
}

impl PartialOrd for AlphaNumSet {
    fn partial_cmp(&self, other: &Self) -> (r: Option<Ordering>) {
        self.val.partial_cmp(&other.val)
    }
}

impl vstd::std_specs::cmp::PartialOrdSpecImpl for AlphaNumSet {
    open spec fn obeys_partial_cmp_spec() -> bool {
        true
    }

    open spec fn partial_cmp_spec(&self, other: &Self) -> Option<Ordering> {
        freel64_cmp(self.val.val, other.val.val)
    }
}

impl Lattice for AlphaNumSet {
    open spec fn join_spec(self, other: Self) -> Self {
        AlphaNumSet { val: self.val.join_spec(other.val) }
    }

    open spec fn meet_spec(self, other: Self) -> Self {
        AlphaNumSet { val: self.val.meet_spec(other.val) }
    }

    open spec fn leq_spec(self, other: Self) -> bool {
        self.val.leq_spec(other.val)
    }

    fn join(self, other: Self) -> (r: Self) {
        Self { val: self.val.join(other.val) }
    }

    fn meet(self, other: Self) -> (r: Self) {
        Self { val: self.val.meet(other.val) }
    }

    fn leq(&self, other: &Self) -> (r: bool) {
        self.val.leq(&other.val)
    }

    fn equals(&self, other: &Self) -> (r: bool) {
        self.val.val == other.val.val
    }

    proof fn lemma_lattice_laws(a: Self, b: Self, c: Self) {
        FreeL64::lemma_lattice_laws(a.val, b.val, c.val);
    }
}

impl BoundedLattice for AlphaNumSet {
    open spec fn top_spec() -> Self {
        AlphaNumSet { val: FreeL64::top_spec() }
    }

    open spec fn bot_spec() -> Self {
        AlphaNumSet { val: FreeL64::bot_spec() }
    }

    fn top() -> (r: Self) {
        Self { val: FreeL64::top() }
    }

    fn bot() -> (r: Self) {
        Self { val: FreeL64::bot() }
    }

    proof fn lemma_bounds(x: Self) {
        FreeL64::lemma_bounds(x.val);
    }
}

/// An interval of a lattice: the elements `x` with `bottom <= x <= top`.
#[derive(Debug, Copy, Clone, PartialEq, Eq)]
pub struct LatticeRange<T> {
    pub top: T,
    pub bottom: T,
}

impl<T: Lattice> LatticeRange<T> {
    pub open spec fn spec_contains(self, x: T) -> bool {
        self.bottom.leq_spec(x) && x.leq_spec(self.top)
    }

    /// No element lies between the two ends.
    pub open spec fn spec_isempty(self) -> bool {
        !self.bottom.leq_spec(self.top)
    }

    pub open spec fn spec_expandby(self, x: T) -> Self {
        LatticeRange { top: self.top.join_spec(x), bottom: self.bottom.meet_spec(x) }
    }

    pub open spec fn spec_unite(self, other: Self) -> Self {
        LatticeRange { top: self.top.join_spec(other.top), bottom: self.bottom.meet_spec(other.bottom) }
    }

    pub open spec fn spec_intersect(self, other: Self) -> Self {
        LatticeRange { top: self.top.meet_spec(other.top), bottom: self.bottom.join_spec(other.bottom) }
    }
}

impl<T: Lattice + Copy> LatticeRange<T> {
    pub fn new(top: T, bottom: T) -> (r: Self)
        ensures
            r == (LatticeRange { top, bottom }),
    {
        LatticeRange { top, bottom }
    }

    pub fn singleton(x: T) -> (r: Self)
        ensures
            r == (LatticeRange { top: x, bottom: x }),
    {
        LatticeRange { top: x, bottom: x }
    }

    pub fn isempty(&self) -> (r: bool)
        ensures
            r == self.spec_isempty(),
    {
        !self.bottom.leq(&self.top)
    }

    pub fn contains(&self, x: &T) -> (r: bool)
        ensures
            r == self.spec_contains(*x),
    {
        self.bottom.leq(x) && x.leq(&self.top)
    }

    pub fn expandby(&self, x: T) -> (r: Self)
        ensures
            r == self.spec_expandby(x),
    {
        LatticeRange { top: self.top.join(x), bottom: self.bottom.meet(x) }
    }

    pub fn unite(self, other: Self) -> (r: Self)
        ensures
            r == self.spec_unite(other),
    {
        LatticeRange { top: self.top.join(other.top), bottom: self.bottom.meet(other.bottom) }
    }

    pub fn intersect(self, other: Self) -> (r: Self)
        ensures
            r == self.spec_intersect(other),
    {
        LatticeRange { top: self.top.meet(other.top), bottom: self.bottom.join(other.bottom) }
    }
}

} // verus!
