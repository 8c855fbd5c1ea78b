use av_core::entropy::{
    calculate_chunk_entropy, calculate_entropy, ByteHistogram, EntropyReport, CHUNK_SIZE, ONE_BIT,
    SUSPICION_THRESHOLD,
};

/// Shannon entropy in bits per byte, in floating point.
fn shannon_entropy(data: &[u8]) -> f64 {
    if data.is_empty() {
        return 0.0;
    }
    let mut freq = [0u32; 256];
    for &byte in data {
        freq[byte as usize] += 1;
    }
    let len = data.len() as f64;
    freq.iter()
        .filter(|&&count| count > 0)
        .map(|&count| {
            let p = count as f64 / len;
            -p * p.log2()
        })
        .sum()
}

fn bits(entropy: u32) -> f64 {
    entropy as f64 / ONE_BIT as f64
}

fn pseudo_random(len: usize) -> Vec<u8> {
    (0..len).map(|i| ((i * 137 + 251) % 256) as u8).collect()
}

/// A small generator of arbitrary bytes, the same on every run.
fn arbitrary_bytes(seed: u64, len: usize, values: u64) -> Vec<u8> {
    let mut state = seed.wrapping_mul(6364136223846793005).wrapping_add(1442695040888963407);
    (0..len)
        .map(|_| {
            state = state.wrapping_mul(6364136223846793005).wrapping_add(1442695040888963407);
            ((state >> 33) % values) as u8
        })
        .collect()
}

#[test]
fn a_histogram_counts_every_byte() {
    let h = ByteHistogram::of(b"abracadabra");
    assert_eq!(h.total(), 11);
    assert_eq!(h.count(b'a'), 5);
    assert_eq!(h.count(b'b'), 2);
    assert_eq!(h.count(b'r'), 2);
    assert_eq!(h.count(b'c'), 1);
    assert_eq!(h.count(b'd'), 1);
    assert_eq!(h.count(b'z'), 0);
    assert_eq!(h.count(0), 0);
    assert_eq!(h.count(255), 0);
    let sum: usize = (0..=255u8).map(|b| h.count(b)).sum();
    assert_eq!(sum, 11);
}

#[test]
fn the_histogram_of_nothing_is_empty() {
    let h = ByteHistogram::of(b"");
    assert_eq!(h.total(), 0);
    for byte in 0..=255u8 {
        assert_eq!(h.count(byte), 0);
    }
    assert_eq!(h.entropy(), 0);
}

#[test]
fn the_histogram_counts_the_extreme_byte_values() {
    let h = ByteHistogram::of(&[0, 255, 255, 0, 0]);
    assert_eq!(h.count(0), 3);
    assert_eq!(h.count(255), 2);
    assert_eq!(h.count(1), 0);
    assert_eq!(h.count(254), 0);
}

#[test]
fn entropy_has_the_values_of_the_formula() {
    assert_eq!(ONE_BIT, 65536);
    // one byte value: nothing to tell apart
    assert_eq!(ByteHistogram::of(b"a").entropy(), 0);
    assert_eq!(ByteHistogram::of(b"aaaaaaa").entropy(), 0);
    // two values equally often: one bit
    assert_eq!(ByteHistogram::of(b"ab").entropy(), 65536);
    assert_eq!(ByteHistogram::of(b"abab").entropy(), 65536);
    // four values equally often: two bits
    assert_eq!(ByteHistogram::of(b"abcd").entropy(), 2 * 65536);
    // three values: log2(3) = 1.58496...
    assert_eq!(ByteHistogram::of(b"abc").entropy(), 103872);
    // two of three alike: log2(3) - 2/3 = 0.91829...
    assert_eq!(ByteHistogram::of(b"aab").entropy(), 60181);
    assert_eq!(ByteHistogram::of(b"abracadabra").entropy(), 133718);
    assert_eq!(ByteHistogram::of(b"Hello, world!").entropy(), 208459);
}

#[test]
fn the_entropy_of_a_chunk_is_that_of_its_histogram() {
    assert_eq!(calculate_chunk_entropy(b""), 0);
    assert_eq!(calculate_chunk_entropy(b"abc"), 103872);
    assert_eq!(calculate_chunk_entropy(b"Hello, world!"), ByteHistogram::of(b"Hello, world!").entropy());
}

#[test]
fn entropy_agrees_with_floating_point() {
    for seed in 0..300u64 {
        let len = 1 + (seed as usize * 37) % 6000;
        let values = 1 + (seed * 11) % 256;
        let data = arbitrary_bytes(seed, len, values);
        let fixed = bits(ByteHistogram::of(&data).entropy());
        let float = shannon_entropy(&data);
        assert!((fixed - float).abs() < 0.0001, "seed {}: {} against {}", seed, fixed, float);
    }
}

#[test]
fn an_empty_sample_gives_the_empty_report() {
    let report = calculate_entropy(b"");
    assert_eq!(report, EntropyReport::default());
    assert_eq!(report.mean_entropy, 0);
    assert!(report.suspicious_regions.is_empty());
}

#[test]
fn uniform_bytes_have_eight_bits_in_every_chunk() {
    let report = calculate_entropy(&pseudo_random(8192));
    assert_eq!(report.mean_entropy, 8 * 65536);
    assert_eq!(report.suspicious_regions, vec![(0, 4096), (4096, 8192)]);
}

#[test]
fn arbitrary_bytes_are_suspicious() {
    let data = arbitrary_bytes(7, 3 * 4096, 256);
    let report = calculate_entropy(&data);
    assert!(bits(report.mean_entropy) > 7.0);
    assert!(!report.suspicious_regions.is_empty());
    assert_eq!(report.suspicious_regions, vec![(0, 4096), (4096, 8192), (8192, 12288)]);
}

#[test]
fn a_repeated_byte_has_no_entropy_and_no_suspicious_region() {
    let report = calculate_entropy(&vec![0x41u8; 10000]);
    assert_eq!(report.mean_entropy, 0);
    assert!(report.suspicious_regions.is_empty());
}

#[test]
fn hello_world_is_not_suspicious() {
    let report = calculate_entropy(b"Hello, world!");
    // ten distinct bytes among thirteen: 3.1808 bits
    assert_eq!(report.mean_entropy, 208459);
    assert!(report.suspicious_regions.is_empty());
}

#[test]
fn the_last_chunk_may_be_short() {
    // 256 values, each once, in the last chunk: eight bits in 256 bytes
    let data = pseudo_random(4096 + 4096 + 256);
    let report = calculate_entropy(&data);
    assert_eq!(report.suspicious_regions, vec![(0, 4096), (4096, 8192), (8192, 8448)]);
    let lengths: Vec<usize> =
        report.suspicious_regions.iter().map(|(start, end)| (end - start) as usize).collect();
    assert_eq!(lengths, vec![CHUNK_SIZE, CHUNK_SIZE, 256]);
}

#[test]
fn each_chunk_is_judged_on_its_own_bytes() {
    // first chunk uniform, second constant, third uniform again but short
    let mut data = pseudo_random(4096);
    data.extend(vec![7u8; 4096]);
    data.extend(pseudo_random(256));
    let report = calculate_entropy(&data);
    assert_eq!(report.suspicious_regions, vec![(0, 4096), (8192, 8448)]);
    assert!(report.mean_entropy < 8 * 65536);
}

#[test]
fn the_threshold_is_seven_and_a_half_bits() {
    assert_eq!(SUSPICION_THRESHOLD, 7 * 65536 + 32768);
    // 181 values equally often: log2(181) = 7.4998..., just below
    let below: Vec<u8> = (0..181 * 20).map(|i| (i % 181) as u8).collect();
    let report = calculate_entropy(&below);
    assert!(report.mean_entropy <= SUSPICION_THRESHOLD);
    assert!(report.suspicious_regions.is_empty());
    // 182 values equally often: log2(182) = 7.5077..., just above
    let above: Vec<u8> = (0..182 * 20).map(|i| (i % 182) as u8).collect();
    let report = calculate_entropy(&above);
    assert!(report.mean_entropy > SUSPICION_THRESHOLD);
    assert_eq!(report.suspicious_regions, vec![(0, 182 * 20)]);
}

#[test]
fn a_sample_of_exactly_one_chunk_has_one_chunk() {
    let report = calculate_entropy(&pseudo_random(4096));
    assert_eq!(report.suspicious_regions, vec![(0, 4096)]);
    // one more byte makes a second chunk, of one byte and no entropy
    let report = calculate_entropy(&pseudo_random(4097));
    assert_eq!(report.suspicious_regions, vec![(0, 4096)]);
}

#[test]
fn analysing_twice_gives_the_same_report() {
    let data = arbitrary_bytes(3, 10000, 200);
    assert_eq!(calculate_entropy(&data), calculate_entropy(&data));
}
