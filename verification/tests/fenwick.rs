use std::collections::{BTreeSet, HashSet};

use rogue_core::fenwick::{FenwickSet, FenwickTree};
use rogue_core::rng::{RandomSource, XorShiftRng};

#[test]
fn same_as_hashset() {
    let mut rng = XorShiftRng::new(0x5eed_0001);
    let max = 1_000_000;
    let mut fws = FenwickSet::with_capacity(max);
    let mut hash = HashSet::new();
    for _ in 0..100000 {
        let num = rng.range_below(max);
        assert_eq!(fws.insert(num), hash.insert(num));
    }
    for _ in 0..5000 {
        let num = rng.range_below(max);
        assert_eq!(fws.remove(num), hash.remove(&num));
    }
    let mut hash_from_fws: HashSet<usize> = HashSet::new();
    let mut it = fws.into_iter();
    while let Some(v) = it.next() {
        hash_from_fws.insert(v);
    }
    assert_eq!(hash, hash_from_fws);
}

#[test]
fn into_iter() {
    let max = 1_000_000;
    let mut fws = FenwickSet::with_capacity(max);
    let mut rng = XorShiftRng::new(0x5eed_0002);
    let mut bts = BTreeSet::new();
    for _ in 0..1000 {
        let num = rng.range_below(max);
        bts.insert(num);
        fws.insert(num);
    }
    let mut it = fws.into_iter();
    assert!(bts.into_iter().all(|a| it.next() == Some(a)));
}

#[test]
fn nth() {
    let max = 1_000_000;
    let mut fws = FenwickSet::with_capacity(max);
    for i in (0..1000).filter(|&i| i % 2 == 1) {
        fws.insert(i);
    }
    assert_eq!(fws.nth(9), Some(19));
    assert_eq!(fws.nth(499), Some(999));
    assert_eq!(fws.nth(500), None);
}

#[test]
fn select() {
    let max = 1_000_000;
    let mut fws = FenwickSet::with_capacity(max);
    let mut rng = XorShiftRng::new(0x5eed_0003);
    assert_eq!(fws.select(&mut rng), None);
    for _ in 0..1000 {
        let num = rng.range_below(max);
        fws.insert(num);
    }
    for _ in 0..10 {
        let num = fws.select(&mut rng).unwrap();
        assert!(fws.contains(num));
    }
}

#[test]
fn invalid_value() {
    let max = 1_000_000;
    let mut fws = FenwickSet::with_capacity(max);
    for i in max..max + 10 {
        assert!(!fws.insert(i));
        assert!(!fws.remove(i));
    }
}

#[test]
fn from_range() {
    let (start, end) = (40, 500);
    let fws = FenwickSet::from_range(start, end);
    for i in 0..1000 {
        let in_range = start <= i && i < end;
        assert_eq!(fws.contains(i), in_range);
    }
}

#[test]
fn sum() {
    let max = 10000;
    let mut fenwick = FenwickTree::new(max);
    let mut rng = XorShiftRng::new(0x5eed_0004);
    let mut sum = 0;
    for _ in 0..1 {
        let plus = rng.range_below(10000) as i32;
        let id = rng.range_below(max);
        fenwick.add(id, plus);
        sum += plus;
    }
    assert_eq!(sum, fenwick.sum_range(0, max));
}

#[test]
fn lower_bound() {
    let max = 100;
    let mut fenwick = FenwickTree::new(max);
    for x in 0..max {
        fenwick.add(x, x as i32);
    }
    let mut sum = 0;
    for x in 0..max {
        sum += x as i32;
        assert_eq!(fenwick.lower_bound(sum), x);
    }
    assert_eq!(fenwick.lower_bound(sum + 10), max);
}

#[test]
fn insert_then_contains_and_count() {
    let mut fws = FenwickSet::with_capacity(100);
    for v in [0, 7, 42, 99] {
        let before = fws.len();
        assert!(!fws.contains(v));
        assert!(fws.insert(v));
        assert!(fws.contains(v));
        assert_eq!(fws.len(), before + 1);
        assert!(!fws.insert(v));
        assert_eq!(fws.len(), before + 1);
    }
}

#[test]
fn remove_then_absent() {
    let mut fws = FenwickSet::with_capacity(100);
    assert!(fws.insert(55));
    let before = fws.len();
    assert!(fws.remove(55));
    assert!(!fws.contains(55));
    assert_eq!(fws.len(), before - 1);
    assert!(!fws.remove(55));
    assert_eq!(fws.len(), before - 1);
    assert!(!fws.remove(100));
    assert_eq!(fws.len(), before - 1);
}

#[test]
fn capacity_ceiling() {
    assert!(FenwickSet::try_with_capacity(50_000_001).is_none());
    assert!(FenwickSet::try_with_capacity(60_000_000).is_none());
    let s = FenwickSet::try_with_capacity(16).unwrap();
    assert_eq!(s.len(), 0);
    assert_eq!(s.capacity(), 16);
}

#[test]
fn from_range_bounds() {
    let fws = FenwickSet::from_range(5, 5);
    assert_eq!(fws.len(), 0);
    assert_eq!(fws.capacity(), 5);
    let fws = FenwickSet::from_range(0, 8);
    assert_eq!(fws.len(), 8);
    for i in 0..8 {
        assert!(fws.contains(i));
    }
}

#[test]
fn nth_matches_iteration_order() {
    let mut fws = FenwickSet::with_capacity(1000);
    let mut rng = XorShiftRng::new(0x5eed_0005);
    for _ in 0..300 {
        fws.insert(rng.range_below(1000));
    }
    let mut it = fws.iter();
    let mut k = 0;
    while let Some(v) = it.next() {
        assert_eq!(fws.nth(k), Some(v));
        k += 1;
    }
    assert_eq!(k, fws.len());
    assert_eq!(fws.nth(k), None);
}

#[test]
fn members_are_sorted_and_indexed_by_nth() {
    let mut fws = FenwickSet::with_capacity(2000);
    let mut rng = XorShiftRng::new(0x5eed_0007);
    let mut bts = BTreeSet::new();
    for _ in 0..500 {
        let num = rng.range_below(2000);
        fws.insert(num);
        bts.insert(num);
    }
    let members = fws.members();
    let sorted: Vec<usize> = bts.into_iter().collect();
    assert_eq!(members, sorted);
    for (k, &v) in members.iter().enumerate() {
        assert_eq!(fws.nth(k), Some(v));
    }
}

#[test]
fn iter_borrowing_leaves_set_usable() {
    let mut fws = FenwickSet::with_capacity(50);
    fws.insert(3);
    fws.insert(17);
    let mut it = fws.iter();
    assert_eq!(it.next(), Some(3));
    assert_eq!(it.next(), Some(17));
    assert_eq!(it.next(), None);
    assert!(fws.contains(3));
    assert!(fws.insert(4));
}

#[test]
fn select_is_roughly_uniform() {
    let mut fws = FenwickSet::with_capacity(10);
    for v in 0..10 {
        fws.insert(v);
    }
    let mut rng = XorShiftRng::new(0x5eed_0006);
    let mut counts = [0usize; 10];
    for _ in 0..10000 {
        let v = fws.select(&mut rng).unwrap();
        counts[v] += 1;
    }
    for &c in counts.iter() {
        assert!(700 <= c && c <= 1300, "draws badly skewed: {}", c);
    }
}

#[test]
fn select_with_std_random() {
    let mut fws = FenwickSet::with_capacity(500);
    for v in (0..500).step_by(3) {
        fws.insert(v);
    }
    let mut rng = rogue_core::rng::StdRandom::from_seed(99);
    for _ in 0..50 {
        let v = fws.select(&mut rng).unwrap();
        assert!(fws.contains(v));
        assert_eq!(v % 3, 0);
    }
}

#[test]
fn default_is_small_empty_set() {
    let fws = FenwickSet::default();
    assert_eq!(fws.len(), 0);
    assert_eq!(fws.capacity(), 10);
    assert!(!fws.contains(0));
}
