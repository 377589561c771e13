use hivec::hiqueries::{and, or, HiQuery, HiQueryCount};
use hivec::hivecs::HiVec;
use hivec::lattices::LatticeRange;

fn bools() -> Vec<bool> {
    vec![true, false, false, true, true, false, false, false, true]
}

fn collect<Q: HiQuery<N, F>, const N: usize, const F: usize>(q: &Q) -> Vec<usize> {
    let mut it = q.iter();
    let mut out = Vec::new();
    while let Some(j) = it.next() {
        out.push(j);
    }
    out
}

#[test]
fn equals_true_findnext_scenario() {
    let hv: HiVec<bool, 3, 2> = HiVec::new(bools());
    let q = hv.query_equals(true);
    assert_eq!(q.findnext(0), Some(0));
    assert_eq!(q.findnext(1), Some(3));
    assert_eq!(q.findnext(7), Some(8));
    assert_eq!(q.findnext(8), Some(8));
    assert_eq!(q.findnext(9), None);
    assert_eq!(q.count(), 4);
}

#[test]
fn equals_false_findnext_scenario() {
    let hv: HiVec<bool, 3, 2> = HiVec::new(bools());
    let q = hv.query_equals(false);
    assert_eq!(q.findnext(0), Some(1));
    assert_eq!(q.findnext(3), Some(5));
    assert_eq!(q.findnext(7), Some(7));
    assert_eq!(q.findnext(8), None);
    assert_eq!(q.count(), 5);
}

#[test]
fn counts_of_both_values_sum_to_length() {
    let hv: HiVec<bool, 3, 2> = HiVec::new(bools());
    assert_eq!(hv.query_equals(true).count() + hv.query_equals(false).count(), 9);
    assert_eq!(hv.len(), 9);
}

#[test]
fn findnext_past_end_and_far_past_end() {
    let hv: HiVec<bool, 3, 2> = HiVec::new(bools());
    let q = hv.query_equals(true);
    assert_eq!(q.findnext(100), None);
    assert_eq!(q.findnext(usize::MAX), None);
}

#[test]
fn empty_sequence_has_no_matches() {
    let hv: HiVec<u32, 3, 2> = HiVec::new(Vec::new());
    assert_eq!(hv.len(), 0);
    assert_eq!(hv.get(0), None);
    let q = hv.query_equals(1);
    assert_eq!(q.length(), 0);
    assert_eq!(q.findnext(0), None);
    assert_eq!(q.count(), 0);
    assert_eq!(collect(&q), Vec::<usize>::new());
}

#[test]
fn no_layers_is_a_linear_scan() {
    let hv: HiVec<u32, 0, 2> = HiVec::new(vec![4, 1, 4, 4, 2]);
    let q = hv.query_equals(4);
    assert_eq!(collect(&q), vec![0, 2, 3]);
    assert_eq!(q.count(), 3);
    assert_eq!(q.findnext(1), Some(2));
}

#[test]
fn get_in_and_out_of_range() {
    let hv: HiVec<u32, 2, 3> = HiVec::new(vec![7, 8, 9, 10]);
    assert_eq!(hv.get(0), Some(&7));
    assert_eq!(hv.get(3), Some(&10));
    assert_eq!(hv.get(4), None);
}

#[test]
fn pyramid_repair_after_mutate() {
    let mut hv: HiVec<u32, 2, 4> = HiVec::new(vec![5, 5, 5, 5, 5, 5, 5, 5]);
    assert_eq!(hv.query_equals(7).count(), 0);
    hv.mutate(6, |_x| 7);
    assert_eq!(hv.get(6), Some(&7));
    let q = hv.query_equals(7);
    assert_eq!(q.findnext(0), Some(6));
    assert_eq!(q.count(), 1);
    // block 1 of layer 0 covers indices 4 .. 8 and its range now holds 7
    assert!(q.hiquery(1, 1));
    assert!(!q.hiquery(1, 0));
    assert_eq!(hv.query_equals(5).count(), 7);
}

#[test]
fn mutate_in_a_short_last_chunk() {
    let mut hv: HiVec<u32, 3, 2> = HiVec::new(vec![1, 1, 1, 1, 1]);
    hv.mutate(4, |x| x + 8);
    let q = hv.query_equals(9);
    assert_eq!(q.findnext(0), Some(4));
    assert!(q.hiquery(1, 2));
    assert!(q.hiquery(2, 1));
    assert!(q.hiquery(3, 0));
    assert!(!q.hiquery(1, 0));
    assert_eq!(hv.query_equals(1).count(), 4);
}

#[test]
fn and_of_two_ranges_matches_their_overlap() {
    let hv: HiVec<i32, 2, 2> = HiVec::new(vec![1, 2, 3, 4, 5, 6]);
    let p = hv.query_range(LatticeRange::new(3, 1)).rc();
    let q = hv.query_range(LatticeRange::new(4, 2)).rc();
    let both = and(p, q);
    assert_eq!(collect(&both), vec![1, 2]);
    assert_eq!(both.count(), 2);
    assert_eq!(both.length(), 6);
}

#[test]
fn or_of_two_queries() {
    let hv: HiVec<i32, 2, 2> = HiVec::new(vec![1, 2, 3, 4, 5, 6]);
    let p = hv.query_equals(2).rc();
    let q = hv.query_range(LatticeRange::new(6, 5)).rc();
    let either = or(p, q);
    assert_eq!(collect(&either), vec![1, 4, 5]);
    assert_eq!(either.count(), 3);
}

#[test]
fn and_or_commute_pointwise() {
    let hv: HiVec<i32, 2, 2> = HiVec::new(vec![1, 2, 3, 4, 5, 6, 7]);
    let a = hv.query_range(LatticeRange::new(5, 2)).rc();
    let b = hv.query_range(LatticeRange::new(7, 4)).rc();
    let ab = and(a.clone(), b.clone());
    let ba = and(b.clone(), a.clone());
    let aob = or(a.clone(), b.clone());
    let boa = or(b, a);
    for i in 0..7 {
        assert_eq!(ab.query_at(i), ba.query_at(i));
        assert_eq!(aob.query_at(i), boa.query_at(i));
    }
    assert_eq!(collect(&ab), vec![3, 4]);
    assert_eq!(collect(&aob), vec![1, 2, 3, 4, 5, 6]);
}

#[test]
fn point_and_bulk_agree_at_layer_zero() {
    let hv: HiVec<u32, 3, 2> = HiVec::new(vec![3, 1, 4, 1, 5, 9, 2, 6, 5]);
    let eq = hv.query_equals(5);
    let rq = hv.query_range(LatticeRange::new(4, 2));
    for i in 0..hv.len() {
        assert_eq!(eq.hiquery(0, i), eq.query_at(i));
        assert_eq!(rq.hiquery(0, i), rq.query_at(i));
    }
}

#[test]
fn bulk_answer_is_true_over_every_match() {
    let hv: HiVec<u32, 3, 2> = HiVec::new(vec![3, 1, 4, 1, 5, 9, 2, 6, 5]);
    let eq = hv.query_equals(9);
    // 9 is at index 5: block 2 of layer 1, block 1 of layer 2, block 0 of layer 3
    assert!(eq.hiquery(1, 2));
    assert!(eq.hiquery(2, 1));
    assert!(eq.hiquery(3, 0));
    assert!(!eq.hiquery(1, 0));
    let rq = hv.query_range(LatticeRange::new(2, 2));
    // 2 is at index 6: block 3 of layer 1
    assert!(rq.hiquery(1, 3));
    assert!(rq.hiquery(2, 1));
    assert!(!rq.hiquery(1, 2));
}

#[test]
fn iterator_yields_count_increasing_indices() {
    let hv: HiVec<bool, 3, 2> = HiVec::new(bools());
    let q = hv.query_equals(false);
    let got = collect(&q);
    assert_eq!(got, vec![1, 2, 5, 6, 7]);
    assert_eq!(got.len(), q.count());
    for w in got.windows(2) {
        assert!(w[0] < w[1]);
    }
    let mut it = q.iter();
    for _ in 0..5 {
        assert!(it.next().is_some());
    }
    assert_eq!(it.next(), None);
    assert_eq!(it.next(), None);
}

#[test]
fn single_match_in_a_long_sequence() {
    let mut v: Vec<u32> = vec![0; 1024];
    v[733] = 42;
    let hv: HiVec<u32, 4, 4> = HiVec::new(v);
    let q = hv.query_equals(42);
    assert_eq!(q.findnext(0), Some(733));
    assert_eq!(q.findnext(734), None);
    assert_eq!(q.count(), 1);
    assert!(q.hiquery(4, 2));
    assert!(!q.hiquery(4, 0));
}
