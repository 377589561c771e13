use hivec::lattices::{
    alphanum_to_u8offset, u8offset_to_alphanum, AlphaNumSet, BoundedLattice, FreeL32, FreeL64,
    Lattice, LatticeRange,
};
use std::cmp::Ordering;

#[test]
fn freel32_join_meet_and_bounds() {
    let a = FreeL32::new(0b000000010010111);
    let b = FreeL32::new(0b000001010010100);
    assert_eq!(a.join(b).val, 0b000001010010111);
    assert_eq!(a.meet(b).val, 0b000000010010100);
    assert_eq!(a.meet(FreeL32::top()), a);
    assert_eq!(a.join(FreeL32::bot()), a);
    assert_eq!(a.join(FreeL32::top()), FreeL32::top());
    assert_eq!(a.meet(FreeL32::bot()), FreeL32::bot());
    assert_eq!(FreeL32::top().val, u32::MAX);
}

#[test]
fn freel_partial_order() {
    let a = FreeL32::new(0b0101);
    let b = FreeL32::new(0b0111);
    let c = FreeL32::new(0b1010);
    assert_eq!(a.partial_cmp(&b), Some(Ordering::Less));
    assert_eq!(b.partial_cmp(&a), Some(Ordering::Greater));
    assert_eq!(a.partial_cmp(&a), Some(Ordering::Equal));
    assert_eq!(a.partial_cmp(&c), None);
    assert!(a < b);
    assert!(a.leq(&b));
    assert!(!b.leq(&a));
    assert!(!a.leq(&c));
    // below in the order: joining gives the larger, meeting the smaller
    assert_eq!(a.join(b), b);
    assert_eq!(a.meet(b), a);
    let x = FreeL64::new(1 << 40);
    let y = FreeL64::new((1 << 40) | 1);
    assert_eq!(x.partial_cmp(&y), Some(Ordering::Less));
    assert_eq!(x.join(y), y);
    assert_eq!(x.meet(y), x);
}

#[test]
fn freel_generator_and_complement() {
    assert_eq!(FreeL32::generator(0).val, 1);
    assert_eq!(FreeL32::generator(31).val, 1 << 31);
    assert_eq!(FreeL32::new(0b1010).complement().val, !0b1010u32);
    assert_eq!(FreeL64::generator(63).val, 1 << 63);
    assert_eq!(FreeL64::new(0).complement(), FreeL64::top());
}

#[test]
fn totally_ordered_lattices_use_max_and_min() {
    assert_eq!(3u32.join(7), 7);
    assert_eq!(3u32.meet(7), 3);
    assert_eq!((-4i32).join(-9), -4);
    assert_eq!((-4i32).meet(-9), -9);
    assert_eq!(true.join(false), true);
    assert_eq!(true.meet(false), false);
    assert!(2u8.leq(&2));
    assert!(!3i64.leq(&2));
    assert_eq!(u16::top(), u16::MAX);
    assert_eq!(i8::bot(), i8::MIN);
}

#[test]
fn lattice_range_operations() {
    let r = LatticeRange::new(5u32, 2);
    assert!(r.contains(&2));
    assert!(r.contains(&5));
    assert!(!r.contains(&6));
    assert!(!r.contains(&1));
    assert!(!r.isempty());
    assert!(LatticeRange::new(1u32, 3).isempty());
    let s = LatticeRange::singleton(4u32);
    assert_eq!(s, LatticeRange::new(4, 4));
    assert_eq!(s.expandby(9), LatticeRange::new(9, 4));
    assert_eq!(s.expandby(1), LatticeRange::new(4, 1));
    assert_eq!(r.unite(LatticeRange::new(8, 4)), LatticeRange::new(8, 2));
    assert_eq!(r.intersect(LatticeRange::new(8, 4)), LatticeRange::new(5, 4));
    assert!(r.intersect(LatticeRange::new(9, 7)).isempty());
}

#[test]
fn lattice_range_over_sets() {
    let r = LatticeRange::new(FreeL32::new(0b111), FreeL32::new(0b001));
    assert!(r.contains(&FreeL32::new(0b011)));
    assert!(!r.contains(&FreeL32::new(0b110)));
    assert!(!r.contains(&FreeL32::new(0b1001)));
    assert!(LatticeRange::new(FreeL32::new(0b01), FreeL32::new(0b10)).isempty());
}

#[test]
fn alphanum_offsets() {
    assert_eq!(alphanum_to_u8offset('0'), 0);
    assert_eq!(alphanum_to_u8offset('9'), 9);
    assert_eq!(alphanum_to_u8offset('A'), 10);
    assert_eq!(alphanum_to_u8offset('Z'), 35);
    assert_eq!(alphanum_to_u8offset('a'), 36);
    assert_eq!(alphanum_to_u8offset('z'), 61);
    assert_eq!(alphanum_to_u8offset(':'), 62);
    assert_eq!(alphanum_to_u8offset('π'), 63);
    assert_eq!(u8offset_to_alphanum(0), '0');
    assert_eq!(u8offset_to_alphanum(10), 'A');
    assert_eq!(u8offset_to_alphanum(35), 'Z');
    assert_eq!(u8offset_to_alphanum(36), 'a');
    assert_eq!(u8offset_to_alphanum(61), 'z');
    assert_eq!(u8offset_to_alphanum(62), ':');
    assert_eq!(u8offset_to_alphanum(63), '?');
}

#[test]
fn alphanum_set_round_trip() {
    let s = AlphaNumSet::new("Ab0:π");
    let expected: u64 = (1 << 0) | (1 << 10) | (1 << 37) | (1 << 62) | (1 << 63);
    assert_eq!(s.val.val, expected);
    assert_eq!(s.render(), vec!['0', 'A', 'b', ':', '?']);
    assert_eq!(s.complement().val.val, !expected);
    let t = AlphaNumSet::new("Aa0:π");
    assert_eq!(t.val.val, (1 << 0) | (1 << 10) | (1 << 36) | (1 << 62) | (1 << 63));
    assert_eq!(t.render(), vec!['0', 'A', 'a', ':', '?']);
}

#[test]
fn alphanum_set_lattice() {
    let a = AlphaNumSet::new("ab");
    let b = AlphaNumSet::singleton('c');
    assert_eq!(b.val.val, 1 << 38);
    assert_eq!(a.join(b), AlphaNumSet::new("abc"));
    assert_eq!(a.meet(b), AlphaNumSet::new(""));
    assert_eq!(AlphaNumSet::new("").val.val, 0);
    assert_eq!(AlphaNumSet::new("a").partial_cmp(&a), Some(Ordering::Less));
    assert_eq!(AlphaNumSet::top().val.val, u64::MAX);
    assert_eq!(AlphaNumSet::bot().render(), Vec::<char>::new());
}
