use onod3000::bits::{avalanche_sums, monobit_counts, weight_histogram};
use onod3000::bytes::{byte_histogram, byte_sum, chi_byte_scaled_stat};
use onod3000::compress::compression_sizes;
use onod3000::gaps::gap_histogram;
use onod3000::points::{pi_words, shell_points};
use onod3000::runs::runs_counts;
use onod3000::series::{correlation_sums, prediction_counts, run_up_counts};

fn balanced_buffer(k: usize) -> Vec<u8> {
    let mut v = Vec::new();
    for _ in 0..k {
        for b in 0..=255u8 {
            v.push(b);
        }
    }
    v
}

#[test]
fn monobit_empty_skips() {
    assert_eq!(monobit_counts(&Vec::new()), None);
}

#[test]
fn monobit_all_zero_has_no_ones() {
    let sample = vec![0u8; 64];
    assert_eq!(monobit_counts(&sample), Some(0));
}

#[test]
fn monobit_all_ones() {
    let sample = vec![0xFFu8; 10];
    assert_eq!(monobit_counts(&sample), Some(80));
}

#[test]
fn monobit_balanced_is_exactly_half() {
    let sample = balanced_buffer(2);
    let ones = monobit_counts(&sample).unwrap();
    assert_eq!(2 * ones, 8 * sample.len() as u128);
}

#[test]
fn weight_histogram_counts_hamming_weights() {
    let sample = vec![0x00u8, 0x01, 0x03, 0xFF];
    let h = weight_histogram(&sample).unwrap();
    assert_eq!(h, vec![1, 1, 1, 0, 0, 0, 0, 0, 1]);
}

#[test]
fn weight_histogram_empty_skips() {
    assert_eq!(weight_histogram(&Vec::new()), None);
}

#[test]
fn avalanche_below_window_skips() {
    assert_eq!(avalanche_sums(&vec![0u8; 39]), None);
    assert_eq!(avalanche_sums(&vec![0u8; 40]), None);
}

#[test]
fn avalanche_one_pair() {
    let mut sample = vec![0u8; 20];
    sample.extend(vec![0xFFu8; 20]);
    sample.push(0);
    let (total, pairs) = avalanche_sums(&sample).unwrap();
    assert_eq!(pairs, 1);
    assert_eq!(total, 160);
}

#[test]
fn avalanche_identical_windows_share_no_diff() {
    let sample = vec![0xA5u8; 81];
    let (total, pairs) = avalanche_sums(&sample).unwrap();
    assert_eq!(pairs, 2);
    assert_eq!(total, 0);
}

#[test]
fn byte_histogram_counts_values() {
    let sample = vec![1u8, 1, 2];
    let h = byte_histogram(&sample).unwrap();
    assert_eq!(h[0], 0);
    assert_eq!(h[1], 2);
    assert_eq!(h[2], 1);
    assert_eq!(h.iter().sum::<u64>(), 3);
}

#[test]
fn byte_histogram_empty_skips() {
    assert_eq!(byte_histogram(&Vec::new()), None);
}

#[test]
fn byte_histogram_all_zero_concentrates() {
    let sample = vec![0u8; 64];
    let h = byte_histogram(&sample).unwrap();
    assert_eq!(h[0], 64);
    for v in 1..256 {
        assert_eq!(h[v], 0);
    }
}

#[test]
fn chi_byte_balanced_is_zero() {
    let sample = balanced_buffer(3);
    assert_eq!(chi_byte_scaled_stat(&sample), Some(0));
}

#[test]
fn chi_byte_single_byte_exact() {
    let sample = vec![0u8];
    assert_eq!(chi_byte_scaled_stat(&sample), Some(65280));
}

#[test]
fn chi_byte_empty_skips() {
    assert_eq!(chi_byte_scaled_stat(&Vec::new()), None);
}

#[test]
fn byte_sum_exact() {
    assert_eq!(byte_sum(&vec![1u8, 2, 3]), Some(6));
    assert_eq!(byte_sum(&Vec::new()), None);
}

#[test]
fn run_ups_counts_increasing_chunks() {
    let sample = vec![1u8, 2, 3, 4, 4, 3, 2, 1];
    assert_eq!(run_up_counts(&sample), Some((1, 2)));
}

#[test]
fn run_ups_short_skips() {
    assert_eq!(run_up_counts(&vec![1u8, 2, 3]), None);
}

#[test]
fn run_ups_ignores_partial_chunk() {
    let sample = vec![9u8, 8, 7, 6, 1, 2, 3];
    assert_eq!(run_up_counts(&sample), Some((0, 1)));
}

#[test]
fn prediction_hits_xor_prefix() {
    assert_eq!(prediction_counts(&vec![5u8, 7, 2]), Some((1, 1)));
    assert_eq!(prediction_counts(&vec![1u8, 2, 4, 0]), Some((0, 2)));
}

#[test]
fn prediction_short_skips() {
    assert_eq!(prediction_counts(&vec![1u8, 2]), None);
}

#[test]
fn correlation_sums_exact() {
    assert_eq!(correlation_sums(&vec![1u8, 2]), Some((3, 5, 4)));
}

#[test]
fn correlation_short_skips() {
    assert_eq!(correlation_sums(&vec![9u8]), None);
}

#[test]
fn runs_two_blocks() {
    let sample = vec![0u8, 0, 255, 255];
    assert_eq!(runs_counts(&sample), Some((2, 2, 2)));
}

#[test]
fn runs_alternating() {
    let sample = vec![0u8, 255, 0, 255];
    assert_eq!(runs_counts(&sample), Some((4, 2, 2)));
}

#[test]
fn runs_odd_median_drops_middle() {
    assert_eq!(runs_counts(&vec![1u8, 2, 3]), Some((2, 1, 1)));
}

#[test]
fn runs_constant_sample_skips() {
    assert_eq!(runs_counts(&vec![7u8, 7, 7]), None);
}

#[test]
fn runs_empty_skips() {
    assert_eq!(runs_counts(&Vec::new()), None);
}

#[test]
fn gaps_counts_first_repeats() {
    let sample = vec![1u8, 2, 1, 2];
    let (hist, total) = gap_histogram(&sample).unwrap();
    assert_eq!(total, 2);
    assert_eq!(hist[0], 2);
    assert_eq!(hist.iter().sum::<u64>(), 2);
}

#[test]
fn gaps_bin_boundary() {
    let mut sample = vec![0u8];
    for f in 1..=27u8 {
        sample.push(f);
    }
    sample.push(0);
    let (hist, total) = gap_histogram(&sample).unwrap();
    assert_eq!(total, 1);
    assert_eq!(hist[0], 0);
    assert_eq!(hist[1], 1);
}

#[test]
fn gaps_no_repeats_skips() {
    assert_eq!(gap_histogram(&vec![1u8, 2, 3]), None);
}

#[test]
fn gaps_empty_skips() {
    assert_eq!(gap_histogram(&Vec::new()), None);
}

#[test]
fn pi_words_extracts_halved_words() {
    let sample = vec![0x80u8, 0, 0, 1];
    assert_eq!(pi_words(&sample), Some(vec![0x40000000]));
}

#[test]
fn pi_words_short_skips() {
    assert_eq!(pi_words(&vec![1u8, 2, 3]), None);
}

#[test]
fn shell_points_extracts_triples() {
    let sample = vec![0u8, 0, 0, 2, 0, 0, 0, 4, 0, 0, 0, 6];
    assert_eq!(shell_points(&sample), Some(vec![(1, 2, 3)]));
}

#[test]
fn shell_points_short_skips() {
    assert_eq!(shell_points(&vec![0u8; 11]), None);
}

#[test]
fn compression_empty_skips() {
    assert_eq!(compression_sizes(&Vec::new()), None);
}

#[test]
fn compression_shrinks_constant_data() {
    let sample = vec![0u8; 1024];
    let (compressed, original) = compression_sizes(&sample).unwrap();
    assert_eq!(original, 1024);
    assert!(compressed > 0);
    assert!(compressed < original);
}

#[test]
fn estimators_are_idempotent() {
    let sample: Vec<u8> = (0..200u32).map(|i| (i * 37 % 256) as u8).collect();
    assert_eq!(monobit_counts(&sample), monobit_counts(&sample));
    assert_eq!(weight_histogram(&sample), weight_histogram(&sample));
    assert_eq!(byte_histogram(&sample), byte_histogram(&sample));
    assert_eq!(chi_byte_scaled_stat(&sample), chi_byte_scaled_stat(&sample));
    assert_eq!(byte_sum(&sample), byte_sum(&sample));
    assert_eq!(avalanche_sums(&sample), avalanche_sums(&sample));
    assert_eq!(runs_counts(&sample), runs_counts(&sample));
    assert_eq!(run_up_counts(&sample), run_up_counts(&sample));
    assert_eq!(prediction_counts(&sample), prediction_counts(&sample));
    assert_eq!(correlation_sums(&sample), correlation_sums(&sample));
    assert_eq!(gap_histogram(&sample), gap_histogram(&sample));
    assert_eq!(pi_words(&sample), pi_words(&sample));
    assert_eq!(shell_points(&sample), shell_points(&sample));
    assert_eq!(compression_sizes(&sample), compression_sizes(&sample));
}

#[test]
fn gaps_deep_bucket() {
    // One zero byte, 588 cycling filler bytes, then the zero again: the
    // zero's first repeat sits 588 positions away (the deepest bucket),
    // and each filler value repeats at distance 254.
    let mut sample = vec![0u8];
    for i in 0..588u32 {
        sample.push((i % 255 + 1) as u8);
    }
    sample.push(0);
    let (hist, total) = gap_histogram(&sample).unwrap();
    assert_eq!(hist[9], 1);
    assert_eq!(hist[6], 333);
    assert_eq!(total, 334);
}
