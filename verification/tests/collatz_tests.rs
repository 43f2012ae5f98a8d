use collatz::stats::calculate_stats;
use collatz::trajectory::generate_sequence;

#[test]
fn test_generate_sequence() {
    // Test case 1: Starting with n = 6.
    let sequence = generate_sequence(6);
    assert_eq!(sequence, vec![6, 3, 10, 5, 16, 8, 4, 2, 1]);

    // Test case 2: Starting with n = 1 (base case).
    let sequence = generate_sequence(1);
    assert_eq!(sequence, vec![1]);
}

#[test]
fn test_calculate_stats() {
    // Using the sequence for n = 6: [6, 3, 10, 5, 16, 8, 4, 2, 1].
    let sequence = generate_sequence(6);
    let stats = calculate_stats(&sequence);

    assert_eq!(stats.length, 9);
    assert_eq!(stats.max_value, 16);
    assert_eq!(stats.max_value_index, 4);
    assert_eq!(stats.even_count, 6);
    assert_eq!(stats.odd_count, 3);
    assert_eq!(stats.stopping_time, 1);
}

#[test]
fn test_generate_zero() {
    // The degenerate seed 0 yields the single-element trajectory [0].
    assert_eq!(generate_sequence(0), vec![0]);
}

#[test]
fn test_length_partition() {
    // Even and odd counts partition the length.
    for seed in [0u64, 1, 2, 6, 7, 27, 97] {
        let stats = calculate_stats(&generate_sequence(seed));
        assert_eq!(stats.length, stats.even_count + stats.odd_count);
    }
}

#[test]
fn test_tie_break_takes_last_maximum() {
    // Among equal maxima the *last* index wins.
    let stats = calculate_stats(&[5, 8, 3, 8, 1]);
    assert_eq!(stats.max_value, 8);
    assert_eq!(stats.max_value_index, 3);
}

#[test]
fn test_stopping_time_boundary() {
    // When nothing after the seed is smaller than the seed, the stopping
    // time defaults to the last index.
    let stats = calculate_stats(&[1]);
    assert_eq!(stats.stopping_time, 0);

    let stats = calculate_stats(&[2, 1]);
    assert_eq!(stats.stopping_time, 1);
}

#[test]
fn test_empty_sequence_yields_zero_stats() {
    let stats = calculate_stats(&[]);
    assert_eq!(stats.length, 0);
    assert_eq!(stats.max_value, 0);
    assert_eq!(stats.max_value_index, 0);
    assert_eq!(stats.even_count, 0);
    assert_eq!(stats.odd_count, 0);
    assert_eq!(stats.stopping_time, 0);
}

#[test]
fn test_purity() {
    // Identical inputs give identical outputs, with no hidden state.
    let first = generate_sequence(27);
    let second = generate_sequence(27);
    assert_eq!(first, second);

    let stats_first = calculate_stats(&first);
    let stats_second = calculate_stats(&second);
    assert_eq!(stats_first, stats_second);
}

#[test]
fn test_overflow_truncation() {
    // The largest u64 is odd and its odd step would overflow, so the
    // trajectory is truncated at once: the value is repeated and is not 1.
    let sequence = generate_sequence(u64::MAX);
    assert_eq!(sequence, vec![u64::MAX, u64::MAX]);
    assert_ne!(*sequence.last().unwrap(), 1);

    // One below the maximum halves once, then hits the guard on an odd
    // value whose step 3n + 1 would overflow.
    let sequence = generate_sequence(u64::MAX - 1);
    let halved = (u64::MAX - 1) / 2;
    assert_eq!(sequence, vec![u64::MAX - 1, halved, halved]);
    assert_ne!(*sequence.last().unwrap(), 1);
}

#[test]
fn test_normal_termination_ends_in_one() {
    // A completed trajectory ends with 1 exactly once.
    for seed in [1u64, 2, 3, 6, 7, 27] {
        let sequence = generate_sequence(seed);
        assert_eq!(*sequence.last().unwrap(), 1);
        assert_eq!(sequence.iter().filter(|&&v| v == 1).count(), 1);
    }
}
