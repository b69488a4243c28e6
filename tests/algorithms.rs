use reference_app::algo::{fast_dedup, fast_fib};

#[test]
fn dedup_keeps_first_occurrence_order() {
    assert_eq!(fast_dedup(&[3, 1, 3, 2, 1, 4]), vec![3, 1, 2, 4]);
    assert_eq!(fast_dedup(&[9, 8, 7]), vec![9, 8, 7]);
}

#[test]
fn dedup_same_values_no_duplicates() {
    let input: Vec<u64> = vec![5, 2, 5, 2, 7, 7, 0, 5];
    let out = fast_dedup(&input);
    for (i, a) in out.iter().enumerate() {
        assert!(input.contains(a));
        assert!(!out[i + 1..].contains(a));
    }
    for v in &input {
        assert!(out.contains(v));
    }
}

#[test]
fn dedup_empty_is_empty() {
    assert_eq!(fast_dedup(&[]), Vec::<u64>::new());
}

#[test]
fn dedup_all_equal_is_single() {
    assert_eq!(fast_dedup(&[5, 5, 5]), vec![5]);
}

#[test]
fn dedup_large_extremes() {
    assert_eq!(fast_dedup(&[u64::MAX, 0, u64::MAX, 0]), vec![u64::MAX, 0]);
}

#[test]
fn dedup_heavy_repetition_ten_thousand() {
    let input: Vec<u64> = (0..10_000u64).map(|i| i % 37).collect();
    let out = fast_dedup(&input);
    let expected: Vec<u64> = (0..37).collect();
    assert_eq!(out, expected);
}

#[test]
fn dedup_pairs_five_thousand() {
    let input: Vec<u64> = (0..5_000u64).flat_map(|n| [n, n]).collect();
    let out = fast_dedup(&input);
    assert_eq!(out.len(), 5_000);
    assert_eq!(out[0], 0);
    assert_eq!(out[4_999], 4_999);
}

#[test]
fn fib_base_cases() {
    assert_eq!(fast_fib(0), 0);
    assert_eq!(fast_fib(1), 1);
    assert_eq!(fast_fib(2), 1);
    assert_eq!(fast_fib(10), 55);
    assert_eq!(fast_fib(32), 2_178_309);
}

#[test]
fn fib_recurrence_up_to_ninety() {
    for n in 2..=90u64 {
        assert_eq!(fast_fib(n), fast_fib(n - 1) + fast_fib(n - 2));
    }
    assert_eq!(fast_fib(90), 2_880_067_194_370_816_120);
}

#[test]
fn fib_fifty_is_quick() {
    let start = std::time::Instant::now();
    assert_eq!(fast_fib(50), 12_586_269_025);
    assert!(start.elapsed() < std::time::Duration::from_millis(1));
}

#[test]
fn fib_wraps_past_u64() {
    assert_eq!(fast_fib(93), 12_200_160_415_121_876_738);
    assert_eq!(fast_fib(94), fast_fib(93).wrapping_add(fast_fib(92)));
    assert_eq!(fast_fib(94), 1_293_530_146_158_671_551);
}
