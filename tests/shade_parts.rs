use optpipe::archive::Archive;
use optpipe::crossover::{binomial_mask, count_leading_accepts, exponential_mask, trial};
use optpipe::donors::{holds, pbest_pool_size, pick_donors, pick_excluding, pick_pbest};
use optpipe::memory::AdaptationMemory;
use optpipe::ranking::{best_n, pick_random, rank, worst_n};

#[test]
fn memory_needs_a_slot() {
    assert!(AdaptationMemory::new(0, (0.5, 0.5)).is_none());
}

#[test]
fn memory_keeps_h_entries_and_wraps() {
    let mut m = AdaptationMemory::new(3, (0.5, 0.5)).unwrap();
    assert_eq!(m.len(), 3);
    assert_eq!(m.cursor(), 0);
    m.record(Some((0.4, 0.9)));
    assert_eq!(m.get(0), (0.4, 0.9));
    assert_eq!(m.cursor(), 1);
    m.record(None);
    assert_eq!(m.cursor(), 1);
    assert_eq!(m.get(1), (0.5, 0.5));
    m.record(Some((0.3, 0.8)));
    m.record(Some((0.2, 0.7)));
    assert_eq!(m.cursor(), 0);
    m.record(Some((0.1, 0.6)));
    assert_eq!(m.len(), 3);
    assert_eq!(m.get(0), (0.1, 0.6));
    assert_eq!(m.get(1), (0.3, 0.8));
    assert_eq!(m.get(2), (0.2, 0.7));
    assert_eq!(m.cursor(), 1);
}

#[test]
fn memory_of_fifty_slots() {
    let mut m = AdaptationMemory::new(50, (0.5, 0.5)).unwrap();
    for g in 0..120u32 {
        let f = 0.5 / (1.0 + g as f64);
        m.record(if g % 3 == 0 { None } else { Some((f, 0.5)) });
        assert_eq!(m.len(), 50);
    }
    assert_eq!(m.cursor(), 80 % 50);
    assert_eq!(m.slot_for(123), 23);
}

#[test]
fn archive_needs_capacity() {
    assert!(Archive::<Vec<f64>>::new(0).is_none());
}

#[test]
fn archive_never_exceeds_capacity() {
    let mut a = Archive::new(20).unwrap();
    for i in 0..100usize {
        a.push(vec![i as f64, -(i as f64)], i * 7);
        assert!(a.len() <= 20);
    }
    assert_eq!(a.len(), 20);
    assert_eq!(a.capacity(), 20);
}

#[test]
fn archive_replaces_the_drawn_entry_when_full() {
    let mut a = Archive::new(3).unwrap();
    a.push(10, 0);
    a.push(11, 0);
    a.push(12, 0);
    assert_eq!((*a.get(0), *a.get(1), *a.get(2)), (10, 11, 12));
    a.push(13, 7);
    assert_eq!((*a.get(0), *a.get(1), *a.get(2)), (10, 13, 12));
}

#[test]
fn binomial_full_rate_takes_the_mutant() {
    let parent = vec![1.0, 2.0, 3.0, 4.0];
    let mutant = vec![5.0, 6.0, 7.0, 8.0];
    let mask = binomial_mask(&vec![true; 4], 2);
    assert_eq!(trial(&parent, &mutant, &mask), mutant);
}

#[test]
fn binomial_zero_rate_forces_one_dimension() {
    let parent = vec![1.0, 2.0, 3.0, 4.0];
    let mutant = vec![5.0, 6.0, 7.0, 8.0];
    let mask = binomial_mask(&vec![false; 4], 1);
    assert_eq!(mask, vec![false, true, false, false]);
    let t = trial(&parent, &mutant, &mask);
    assert_eq!(t, vec![1.0, 6.0, 3.0, 4.0]);
    assert_ne!(t, parent);
}

#[test]
fn binomial_mixed_draws() {
    let mask = binomial_mask(&vec![true, false, false, true, false], 2);
    assert_eq!(mask, vec![true, false, true, true, false]);
}

#[test]
fn leading_accepts_counts_the_first_run() {
    assert_eq!(count_leading_accepts(&vec![]), 0);
    assert_eq!(count_leading_accepts(&vec![false, true]), 0);
    assert_eq!(count_leading_accepts(&vec![true, true, false, true]), 2);
}

#[test]
fn exponential_block_wraps() {
    assert_eq!(exponential_mask(5, 3, &vec![true, true, false]), vec![true, false, false, true, true]);
    assert_eq!(exponential_mask(4, 1, &vec![false]), vec![false, true, false, false]);
    assert_eq!(exponential_mask(3, 2, &vec![true; 10]), vec![true, true, true]);
}

#[test]
fn pick_excluding_skips_excluded() {
    assert_eq!(pick_excluding(5, &vec![0, 2], 0), Some(1));
    assert_eq!(pick_excluding(5, &vec![0, 2], 1), Some(3));
    assert_eq!(pick_excluding(5, &vec![0, 2], 2), Some(4));
    assert_eq!(pick_excluding(5, &vec![0, 2], 3), Some(1));
    assert_eq!(pick_excluding(2, &vec![0, 1], 3), None);
    assert_eq!(pick_excluding(0, &vec![], 3), None);
    assert!(holds(&vec![4, 9], 9));
    assert!(!holds(&vec![4, 9], 5));
}

#[test]
fn donors_are_distinct() {
    for d1 in 0..30 {
        for d2 in 0..30 {
            let (r1, r2) = pick_donors(20, 5, 3, 7, d1, d2).unwrap();
            assert!(r1 < 20 && r1 != 3 && r1 != 7);
            assert!(r2 < 25 && r2 != 3 && r2 != r1);
        }
    }
    assert_eq!(pick_donors(2, 4, 0, 1, 0, 0), None);
    assert_eq!(pick_donors(3, 0, 0, 1, 5, 1), Some((2, 1)));
}

#[test]
fn pbest_pool_is_at_least_two() {
    assert_eq!(pbest_pool_size(20, 2), 2);
    assert_eq!(pbest_pool_size(20, 0), 2);
    assert_eq!(pbest_pool_size(20, 7), 7);
    assert_eq!(pbest_pool_size(5, 9), 5);
    assert_eq!(pick_pbest(&vec![4, 1, 3, 0, 2], 2, 5), 1);
}

#[test]
fn rank_orders_by_key() {
    assert_eq!(rank(&vec![30, 10, 20]), vec![1, 2, 0]);
    assert_eq!(rank(&vec![]), Vec::<usize>::new());
    let r = rank(&vec![5, 5, 1, 9, 5]);
    assert_eq!(r[0], 2);
    assert_eq!(r[4], 3);
    let mut sorted = r.clone();
    sorted.sort();
    assert_eq!(sorted, vec![0, 1, 2, 3, 4]);
}

#[test]
fn best_and_worst_n() {
    let keys = vec![40, 10, 30, 20, 50];
    assert_eq!(best_n(&keys, 2), vec![1, 3]);
    assert_eq!(worst_n(&keys, 2), vec![4, 0]);
    assert_eq!(best_n(&keys, 0), Vec::<usize>::new());
    assert_eq!(worst_n(&keys, 5).len(), 5);
}

#[test]
fn random_picks_are_distinct() {
    assert_eq!(pick_random(5, 3, &vec![0, 0, 0]), vec![0, 1, 2]);
    assert_eq!(pick_random(5, 2, &vec![7, 7]), vec![2, 4]);
    let r = pick_random(4, 4, &vec![9, 9, 9, 9]);
    let mut s = r.clone();
    s.sort();
    assert_eq!(s, vec![0, 1, 2, 3]);
}
