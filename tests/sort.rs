use aspirin::sort::{fork, merge, merge_sort, Fork, JoinPoint, Side};

fn is_sorted(v: &[i64]) -> bool {
    v.windows(2).all(|w| w[0] <= w[1])
}

fn same_elements(a: &[i64], b: &[i64]) -> bool {
    let mut x = a.to_vec();
    let mut y = b.to_vec();
    x.sort();
    y.sort();
    x == y
}

fn pseudo_random(n: usize, seed: u64) -> Vec<i64> {
    let mut state = seed;
    let mut v = Vec::with_capacity(n);
    for _ in 0..n {
        state = state
            .wrapping_mul(6364136223846793005)
            .wrapping_add(1442695040888963407);
        v.push((state >> 1) as i64 - (1i64 << 62));
    }
    v
}

#[test]
fn merge_interleaves_two_runs() {
    assert_eq!(merge(&[1, 3, 5], &[2, 4, 6]), vec![1, 2, 3, 4, 5, 6]);
}

#[test]
fn merge_with_equal_heads() {
    assert_eq!(merge(&[1, 1, 2], &[1, 3]), vec![1, 1, 1, 2, 3]);
}

#[test]
fn merge_with_an_empty_side() {
    assert_eq!(merge(&[], &[2, 4]), vec![2, 4]);
    assert_eq!(merge(&[7, 9], &[]), vec![7, 9]);
    assert_eq!(merge(&[], &[]), Vec::<i64>::new());
}

#[test]
fn merge_keeps_length_and_order() {
    let left = vec![-5, 0, 0, 8, 100];
    let right = vec![-7, 0, 3, 3];
    let out = merge(&left, &right);
    assert_eq!(out.len(), left.len() + right.len());
    assert!(is_sorted(&out));
    let mut both = left.clone();
    both.extend_from_slice(&right);
    assert!(same_elements(&out, &both));
}

#[test]
fn merge_extreme_values() {
    assert_eq!(
        merge(&[i64::MIN, i64::MAX], &[i64::MIN, 0]),
        vec![i64::MIN, i64::MIN, 0, i64::MAX]
    );
}

#[test]
fn sort_empty() {
    assert_eq!(merge_sort(vec![]), Vec::<i64>::new());
}

#[test]
fn sort_single() {
    assert_eq!(merge_sort(vec![5]), vec![5]);
}

#[test]
fn sort_three() {
    assert_eq!(merge_sort(vec![3, 1, 2]), vec![1, 2, 3]);
}

#[test]
fn sort_all_equal() {
    assert_eq!(merge_sort(vec![4; 9]), vec![4; 9]);
}

#[test]
fn sort_increasing() {
    let v: Vec<i64> = (0..50).collect();
    assert_eq!(merge_sort(v.clone()), v);
}

#[test]
fn sort_decreasing() {
    let v: Vec<i64> = (0..50).rev().collect();
    let expected: Vec<i64> = (0..50).collect();
    assert_eq!(merge_sort(v), expected);
}

#[test]
fn sort_random_is_sorted_permutation() {
    for (n, seed) in [(10usize, 1u64), (97, 2), (1000, 3)] {
        let v = pseudo_random(n, seed);
        let out = merge_sort(v.clone());
        assert!(is_sorted(&out));
        assert!(same_elements(&out, &v));
    }
}

#[test]
fn sort_is_deterministic() {
    let v = pseudo_random(500, 42);
    let first = merge_sort(v.clone());
    for _ in 0..4 {
        assert_eq!(merge_sort(v.clone()), first);
    }
    let mut expected = v;
    expected.sort();
    assert_eq!(first, expected);
}

#[test]
fn fork_small_is_done() {
    match fork(vec![8]) {
        Fork::Done(d) => assert_eq!(d, vec![8]),
        Fork::Split(_, _) => panic!("a single element is not split"),
    }
    match fork(vec![]) {
        Fork::Done(d) => assert!(d.is_empty()),
        Fork::Split(_, _) => panic!("an empty range is not split"),
    }
}

#[test]
fn fork_splits_at_midpoint() {
    match fork(vec![5, 4, 3, 2, 1]) {
        Fork::Split(l, r) => {
            assert_eq!(l, vec![5, 4]);
            assert_eq!(r, vec![3, 2, 1]);
        }
        Fork::Done(_) => panic!("five elements are split"),
    }
}

#[test]
fn join_point_merges_when_both_arrive() {
    let mut join = JoinPoint::new();
    assert!(join.arrive(Side::Right, vec![2, 9]).is_none());
    assert_eq!(join.arrive(Side::Left, vec![1, 3]), Some(vec![1, 2, 3, 9]));

    let mut join = JoinPoint::new();
    assert!(join.arrive(Side::Left, vec![0, 7]).is_none());
    assert_eq!(join.arrive(Side::Right, vec![-1, 8]), Some(vec![-1, 0, 7, 8]));
}
