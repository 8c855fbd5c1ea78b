//! Entropy analysis of a sample: byte histograms, Shannon entropy in fixed
//! point, the fixed chunk layout, and the flagging of chunks whose entropy is
//! suspiciously high.
//!
//! Entropy is counted in steps of 2^-16 bit per byte: 65536 stands for one
//! bit, 524288 for the eight bits of uniformly distributed bytes. It is
//! computed from the logarithms of `crate::log2`:
//! `H = log2(n) - (sum of c * log2(c)) / n` for byte counts `c` among `n`
//! bytes. `lemma_entropy_brackets` says how far that is from the Shannon
//! entropy: less than three steps.

use vstd::prelude::*;
use vstd::slice::slice_subrange;
use vstd::arithmetic::power::{
    lemma_pow0, lemma_pow1, lemma_pow_adds, lemma_pow_multiplies, lemma_pow_positive, pow,
};
use vstd::arithmetic::power2::{lemma2_to64, lemma_pow2, lemma_pow2_adds, pow2};
use crate::log2::{
    lemma_log2_q16_brackets, lemma_log2_q16_of_double, lemma_log2_q16_whole_part, log2_q16,
    log2_q16_of,
};

verus! {

/// Number of bytes in an analysis chunk.
pub const CHUNK_SIZE: usize = 4096;

/// One bit per byte.
pub const ONE_BIT: u32 = 65536;

/// A chunk is suspicious when its entropy lies strictly above 7.5 bits per
/// byte.
pub const SUSPICION_THRESHOLD: u32 = 491520;

/// How often `byte` occurs in `data`.
pub open spec fn occurrences(data: Seq<u8>, byte: u8) -> nat
    decreases data.len(),
{
    if data.len() == 0 {
        0
    } else {
        occurrences(data.drop_last(), byte) + if data.last() == byte {
            1nat
        } else {
            0nat
        }
    }
}

/// The histogram of `data`: for each of the 256 byte values, how often it occurs.
pub open spec fn histogram(data: Seq<u8>) -> Seq<nat> {
    Seq::new(256, |b: int| occurrences(data, b as u8))
}

/// What a byte value that occurs `count` times adds to the sum of
/// logarithms: `count * log2(count)`, and nothing if it does not occur.
pub open spec fn log_term(count: nat) -> nat {
    if count == 0 {
        0
    } else {
        count * log2_q16(count)
    }
}

/// The sum of `c * log2(c)` over the counts.
pub open spec fn weighted_logs(counts: Seq<nat>) -> nat
    decreases counts.len(),
{
    if counts.len() == 0 {
        0
    } else {
        weighted_logs(counts.drop_last()) + log_term(counts.last())
    }
}

/// Shannon entropy of bytes with these counts among `total` bytes, in steps
/// of 2^-16 bit per byte: `log2(total) - weighted_logs(counts) / total`,
/// rounded down and never below zero. The entropy of no bytes is zero.
pub open spec fn entropy_q16(counts: Seq<nat>, total: nat) -> nat {
    if total == 0 {
        0
    } else {
        let whole = total * log2_q16(total);
        let parts = weighted_logs(counts);
        if whole >= parts {
            ((whole - parts) / (total as int)) as nat
        } else {
            0
        }
    }
}

/// Shannon entropy of `data`.
pub open spec fn entropy_of(data: Seq<u8>) -> nat {
    entropy_q16(histogram(data), data.len())
}

/// No byte occurs more often than the data is long.
pub proof fn lemma_occurrences_bounded(data: Seq<u8>, byte: u8)
    ensures
        occurrences(data, byte) <= data.len(),
    decreases data.len(),
{
    if data.len() > 0 {
        lemma_occurrences_bounded(data.drop_last(), byte);
    }
}

/// Data made of one repeated byte holds that byte `len` times and no other.
pub proof fn lemma_occurrences_of_constant(data: Seq<u8>, value: u8, byte: u8)
    requires
        forall|i: int| 0 <= i < data.len() ==> data[i] == value,
    ensures
        occurrences(data, byte) == if byte == value {
            data.len()
        } else {
            0
        },
    decreases data.len(),
{
    if data.len() > 0 {
        lemma_occurrences_of_constant(data.drop_last(), value, byte);
    }
}

/// The entropy is at most the logarithm of the number of bytes, and so lies
/// below 64 bits.
pub proof fn lemma_entropy_q16_bounded(counts: Seq<nat>, total: nat)
    requires
        total < 0x1_0000_0000_0000_0000,
    ensures
        entropy_q16(counts, total) < 64 * 65536,
        total > 0 ==> entropy_q16(counts, total) <= log2_q16(total),
{
    if total > 0 {
        lemma_log2_q16_whole_part(total);
        let whole = total * log2_q16(total);
        let parts = weighted_logs(counts);
        if whole >= parts {
            assert((whole - parts) / (total as int) <= log2_q16(total)) by (nonlinear_arith)
                requires
                    0 <= whole - parts <= total * log2_q16(total),
                    total > 0,
            ;
        }
    }
}

/// How often each of the 256 byte values occurs in some data.
pub struct ByteHistogram {
    counts: Vec<usize>,
    total: usize,
}

impl ByteHistogram {
    #[verifier::type_invariant]
    spec fn well_formed(self) -> bool {
        self.counts@.len() == 256
    }

    /// The 256 counts, indexed by byte value.
    pub closed spec fn counts(&self) -> Seq<nat> {
        self.counts@.map_values(|c: usize| c as nat)
    }

    /// The number of bytes that were counted.
    pub closed spec fn spec_total(&self) -> nat {
        self.total as nat
    }

    /// This histogram is the histogram of `data`.
    pub open spec fn describes(&self, data: Seq<u8>) -> bool {
        self.counts() == histogram(data) && self.spec_total() == data.len()
    }

    /// Count the bytes of `data`.
    pub fn of(data: &[u8]) -> (h: Self)
        ensures
            h.describes(data@),
    {
        let mut counts: Vec<usize> = Vec::new();
        let mut k: usize = 0;
        while k < 256
            invariant
                k <= 256,
                counts@.len() == k,
                forall|j: int| 0 <= j < k ==> counts@[j] == 0,
            decreases 256 - k,
        {
            counts.push(0);
            k += 1;
        }
        let n = data.len();
        let mut i: usize = 0;
        assert(data@.take(0) =~= Seq::<u8>::empty());
        while i < n
            invariant
                n == data@.len(),
                i <= n,
                counts@.len() == 256,
                forall|b: u8| #[trigger] counts@[b as int] == occurrences(data@.take(i as int), b),
            decreases n - i,
        {
            let byte = data[i];
            let ghost before = data@.take(i as int);
            let ghost after = data@.take(i + 1);
            proof {
                assert(after.drop_last() =~= before);
                assert(after.last() == byte);
                lemma_occurrences_bounded(before, byte);
            }
            let updated: usize = counts[byte as usize] + 1;
            counts.set(byte as usize, updated);
            i += 1;
            assert forall|b: u8| #[trigger] counts@[b as int] == occurrences(after, b) by {
                if b != byte {
                    assert(b as int != byte as int);
                }
            }
        }
        assert(data@.take(n as int) =~= data@);
        let h = ByteHistogram { counts, total: n };
        proof {
            assert forall|b: int| 0 <= b < 256 implies h.counts()[b] == histogram(data@)[b] by {
                assert(h.counts@[(b as u8) as int] == occurrences(data@, b as u8));
            }
            assert(h.counts() =~= histogram(data@));
        }
        h
    }

    /// How often `byte` was seen.
    pub fn count(&self, byte: u8) -> (n: usize)
        ensures
            self.counts().len() == 256,
            n == self.counts()[byte as int],
    {
        proof {
            use_type_invariant(self);
        }
        self.counts[byte as usize]
    }

    /// How many bytes were counted.
    pub fn total(&self) -> (n: usize)
        ensures
            n == self.spec_total(),
    {
        self.total
    }

    /// Shannon entropy of the counted bytes, in steps of 2^-16 bit per byte.
    pub fn entropy(&self) -> (e: u32)
        ensures
            e == entropy_q16(self.counts(), self.spec_total()),
    {
        proof {
            use_type_invariant(self);
            lemma_entropy_q16_bounded(self.counts(), self.spec_total());
        }
        if self.total == 0 {
            return 0;
        }
        let n: u128 = self.total as u128;
        let l = log2_q16_of(self.total as u64);
        assert(n * l <= 0x40_0000_0000_0000_0000_0000) by (nonlinear_arith)
            requires
                n < 0x1_0000_0000_0000_0000,
                l < 0x40_0000,
        ;
        let whole: u128 = n * (l as u128);
        let mut parts: u128 = 0;
        let mut k: usize = 0;
        assert(self.counts().take(0) =~= Seq::<nat>::empty());
        while k < 256
            invariant
                k <= 256,
                self.counts@.len() == 256,
                self.counts().len() == 256,
                parts == weighted_logs(self.counts().take(k as int)),
                parts <= k * 0x40_0000_0000_0000_0000_0000,
            decreases 256 - k,
        {
            let c = self.counts[k];
            proof {
                let before = self.counts().take(k as int);
                let after = self.counts().take(k + 1);
                assert(after.drop_last() =~= before);
                assert(after.last() == c as nat);
            }
            if c > 0 {
                let l = log2_q16_of(c as u64);
                assert(c * l <= 0x40_0000_0000_0000_0000_0000) by (nonlinear_arith)
                    requires
                        c < 0x1_0000_0000_0000_0000,
                        l < 0x40_0000,
                ;
                parts = parts + (c as u128) * (l as u128);
            }
            k += 1;
        }
        assert(self.counts().take(256) =~= self.counts());
        if whole >= parts {
            ((whole - parts) / n) as u32
        } else {
            0
        }
    }
}

/// Number of chunks that data of `len` bytes falls into; the last one may be short.
pub open spec fn chunk_count(len: nat) -> nat {
    (len + CHUNK_SIZE as nat - 1) as nat / CHUNK_SIZE as nat
}

/// Offset of the first byte of chunk `i`.
pub open spec fn chunk_start(i: nat) -> nat {
    i * CHUNK_SIZE as nat
}

/// Offset just past the last byte of chunk `i` in data of `len` bytes.
pub open spec fn chunk_end(i: nat, len: nat) -> nat {
    if (i + 1) * CHUNK_SIZE as nat <= len {
        (i + 1) * CHUNK_SIZE as nat
    } else {
        len
    }
}

/// The bytes of chunk `i`.
pub open spec fn chunk(data: Seq<u8>, i: nat) -> Seq<u8> {
    data.subrange(chunk_start(i) as int, chunk_end(i, data.len()) as int)
}

/// The entropy of each chunk of `data`, in the order of the chunks.
pub open spec fn chunk_entropies(data: Seq<u8>) -> Seq<nat> {
    Seq::new(chunk_count(data.len()), |i: int| entropy_of(chunk(data, i as nat)))
}

/// The byte ranges of the chunks whose entropy lies above the suspicion
/// threshold, in the order of the chunks. `entropy[i]` is the entropy of
/// chunk `i` of data `len` bytes long.
pub open spec fn flagged(len: nat, entropy: Seq<nat>) -> Seq<(u64, u64)>
    decreases entropy.len(),
{
    if entropy.len() == 0 {
        Seq::empty()
    } else {
        let i = (entropy.len() - 1) as nat;
        let earlier = flagged(len, entropy.drop_last());
        if entropy.last() > SUSPICION_THRESHOLD {
            earlier.push((chunk_start(i) as u64, chunk_end(i, len) as u64))
        } else {
            earlier
        }
    }
}

/// The suspicious regions of `data`: the ranges of its chunks whose entropy
/// lies above 7.5 bits per byte.
pub open spec fn suspicious_regions_of(data: Seq<u8>) -> Seq<(u64, u64)> {
    flagged(data.len(), chunk_entropies(data))
}

/// What an entropy analysis found.
#[derive(Debug, Clone, PartialEq, Eq)]
pub struct EntropyReport {
    /// Entropy of the whole sample, in steps of 2^-16 bit per byte.
    pub mean_entropy: u32,
    /// Byte ranges `(start, end)` of the suspicious chunks, `end` exclusive.
    pub suspicious_regions: Vec<(u64, u64)>,
}

impl Default for EntropyReport {
    /// The report of a disabled analysis or of an empty sample.
    fn default() -> (r: Self)
        ensures
            r.is_empty(),
    {
        EntropyReport { mean_entropy: 0, suspicious_regions: Vec::new() }
    }
}

impl EntropyReport {
    /// The report holds no entropy and no region.
    pub open spec fn is_empty(&self) -> bool {
        self.mean_entropy == 0 && self.suspicious_regions@.len() == 0
    }

    /// The report is the analysis of `data`.
    pub open spec fn is_analysis_of(&self, data: Seq<u8>) -> bool {
        self.mean_entropy == entropy_of(data) && self.suspicious_regions@ == suspicious_regions_of(
            data,
        )
    }
}

/// `regions` are ranges of a sample of `len` bytes as the analysis reports
/// them: each starts on a chunk boundary, is not empty, spans at most one
/// chunk, ends within the sample, and starts no earlier than the one before
/// it ends.
pub open spec fn regions_well_formed(regions: Seq<(u64, u64)>, len: nat) -> bool {
    &&& forall|k: int|
        0 <= k < regions.len() ==> {
            &&& (#[trigger] regions[k]).0 % CHUNK_SIZE as u64 == 0
            &&& regions[k].0 < regions[k].1
            &&& regions[k].1 - regions[k].0 <= CHUNK_SIZE
            &&& regions[k].1 <= len
        }
    &&& forall|j: int, k: int|
        0 <= j < k < regions.len() ==> (#[trigger] regions[j]).1 <= (#[trigger] regions[k]).0
}

/// The ranges flagged for a sample are well formed and at most one per chunk,
/// provided there is at most one entropy value per chunk.
pub proof fn lemma_flagged_well_formed(len: nat, entropy: Seq<nat>)
    requires
        entropy.len() <= chunk_count(len),
        len <= u64::MAX,
    ensures
        regions_well_formed(flagged(len, entropy), len),
        flagged(len, entropy).len() <= entropy.len(),
        forall|k: int|
            0 <= k < flagged(len, entropy).len() ==> (#[trigger] flagged(len, entropy)[k]).1
                <= chunk_end((entropy.len() - 1) as nat, len),
    decreases entropy.len(),
{
    if entropy.len() > 0 {
        let i = (entropy.len() - 1) as nat;
        lemma_flagged_well_formed(len, entropy.drop_last());
        assert(i * 4096 < len);
        if i > 0 {
            assert(chunk_end((i - 1) as nat, len) == i * 4096);
        }
    }
}

/// No chunk is flagged when no entropy value lies above the threshold.
pub proof fn lemma_flagged_empty(len: nat, entropy: Seq<nat>)
    requires
        forall|i: int| 0 <= i < entropy.len() ==> entropy[i] <= SUSPICION_THRESHOLD,
    ensures
        flagged(len, entropy).len() == 0,
    decreases entropy.len(),
{
    if entropy.len() > 0 {
        lemma_flagged_empty(len, entropy.drop_last());
    }
}

/// A chunk above the threshold makes a suspicious region: with some entropy
/// value above the threshold, at least one chunk is flagged.
pub proof fn lemma_flagged_nonempty(len: nat, entropy: Seq<nat>, i: int)
    requires
        0 <= i < entropy.len(),
        entropy[i] > SUSPICION_THRESHOLD,
    ensures
        flagged(len, entropy).len() > 0,
    decreases entropy.len(),
{
    if i < entropy.len() - 1 {
        lemma_flagged_nonempty(len, entropy.drop_last(), i);
    }
}

/// Shannon entropy of a chunk of bytes, in steps of 2^-16 bit per byte. The
/// entropy of no bytes is zero.
pub fn calculate_chunk_entropy(chunk: &[u8]) -> (entropy: u32)
    ensures
        entropy == entropy_of(chunk@),
{
    ByteHistogram::of(chunk).entropy()
}

/// Analyse the entropy of a sample: the entropy of the whole, and the ranges
/// of the chunks of 4096 bytes whose own entropy lies above 7.5 bits per
/// byte. An empty sample gives the empty report.
pub fn calculate_entropy(data: &[u8]) -> (report: EntropyReport)
    ensures
        report.is_analysis_of(data@),
        data@.len() == 0 ==> report.is_empty(),
        regions_well_formed(report.suspicious_regions@, data@.len()),
{
    let n = data.len();
    if n == 0 {
        let report = EntropyReport::default();
        proof {
            assert(chunk_entropies(data@) =~= Seq::<nat>::empty());
            assert(report.suspicious_regions@ =~= suspicious_regions_of(data@));
        }
        return report;
    }
    let mean_entropy = calculate_chunk_entropy(data);
    let mut suspicious_regions: Vec<(u64, u64)> = Vec::new();
    let mut start: usize = 0;
    let mut index: usize = 0;
    assert(chunk_entropies(data@).take(0) =~= Seq::<nat>::empty());
    while start < n
        invariant
            n == data@.len(),
            n > 0,
            start == index * CHUNK_SIZE || (start == n && index == chunk_count(n as nat)),
            index <= chunk_count(n as nat),
            start <= n,
            suspicious_regions@ == flagged(n as nat, chunk_entropies(data@).take(index as int)),
        decreases n - start,
    {
        let end: usize = if n - start > CHUNK_SIZE {
            start + CHUNK_SIZE
        } else {
            n
        };
        assert(start == chunk_start(index as nat));
        assert(end == chunk_end(index as nat, n as nat));
        let piece = slice_subrange(data, start, end);
        assert(piece@ == chunk(data@, index as nat));
        let value = calculate_chunk_entropy(piece);
        proof {
            let all = chunk_entropies(data@);
            assert(all.take(index + 1).drop_last() =~= all.take(index as int));
            assert(all.take(index + 1).last() == value);
        }
        if value > SUSPICION_THRESHOLD {
            suspicious_regions.push((start as u64, end as u64));
        }
        start = end;
        index += 1;
    }
    proof {
        let all = chunk_entropies(data@);
        assert(all.take(index as int) =~= all);
        lemma_flagged_well_formed(n as nat, all);
    }
    EntropyReport { mean_entropy, suspicious_regions }
}

/// The sum of the counts.
pub open spec fn count_sum(counts: Seq<nat>) -> nat
    decreases counts.len(),
{
    if counts.len() == 0 {
        0
    } else {
        count_sum(counts.drop_last()) + counts.last()
    }
}

/// One more at one place is one more in the sum.
proof fn lemma_count_sum_of_update(counts: Seq<nat>, at: int)
    requires
        0 <= at < counts.len(),
    ensures
        count_sum(counts.update(at, counts[at] + 1)) == count_sum(counts) + 1,
    decreases counts.len(),
{
    let bumped = counts.update(at, counts[at] + 1);
    if at == counts.len() - 1 {
        assert(bumped.drop_last() =~= counts.drop_last());
    } else {
        lemma_count_sum_of_update(counts.drop_last(), at);
        assert(bumped.drop_last() =~= counts.drop_last().update(at, counts[at] + 1));
    }
}

proof fn lemma_count_sum_of_zeros(counts: Seq<nat>)
    requires
        forall|i: int| 0 <= i < counts.len() ==> counts[i] == 0,
    ensures
        count_sum(counts) == 0,
    decreases counts.len(),
{
    if counts.len() > 0 {
        lemma_count_sum_of_zeros(counts.drop_last());
    }
}

/// The counts of a histogram add up to the number of bytes.
pub proof fn lemma_histogram_counts_every_byte(data: Seq<u8>)
    ensures
        count_sum(histogram(data)) == data.len(),
    decreases data.len(),
{
    if data.len() == 0 {
        lemma_count_sum_of_zeros(histogram(data));
    } else {
        let before = histogram(data.drop_last());
        let at = data.last() as int;
        lemma_histogram_counts_every_byte(data.drop_last());
        lemma_count_sum_of_update(before, at);
        assert(histogram(data) =~= before.update(at, before[at] + 1)) by {
            assert forall|b: int| 0 <= b < 256 implies histogram(data)[b] == before.update(
                at,
                before[at] + 1,
            )[b] by {
                if b != at {
                    assert(b as u8 != data.last());
                }
            }
        }
    }
}

/// The sum of logarithms is at most the logarithm of a bound on the counts,
/// once for each byte counted.
proof fn lemma_weighted_logs_bounded(counts: Seq<nat>, bound: nat)
    requires
        forall|i: int| 0 <= i < counts.len() ==> counts[i] <= bound,
        bound < 0x1_0000_0000_0000_0000,
    ensures
        weighted_logs(counts) <= count_sum(counts) * log2_q16(bound),
    decreases counts.len(),
{
    if counts.len() == 0 {
        assert(0 * log2_q16(bound) == 0) by (nonlinear_arith);
    } else {
        lemma_weighted_logs_bounded(counts.drop_last(), bound);
        let c = counts.last();
        let l = log2_q16(bound);
        if c > 0 {
            crate::log2::lemma_log2_q16_monotone(c, bound);
            let lc = log2_q16(c);
            assert(c * lc <= c * l) by (nonlinear_arith)
                requires
                    lc <= l,
            ;
        } else {
            assert(0 <= c * l) by (nonlinear_arith);
        }
        let earlier = count_sum(counts.drop_last());
        assert((earlier + c) * l == earlier * l + c * l) by (nonlinear_arith);
    }
}

/// The entropy of data is never cut off at zero: the sum of logarithms of
/// its histogram is at most `len * log2(len)`, so the entropy is the whole
/// difference, divided by the length and rounded down.
pub proof fn lemma_entropy_is_the_difference(data: Seq<u8>)
    requires
        0 < data.len() < 0x1_0000_0000_0000_0000,
    ensures
        weighted_logs(histogram(data)) <= data.len() * log2_q16(data.len()),
        entropy_of(data) == (data.len() * log2_q16(data.len()) - weighted_logs(histogram(data)))
            / (data.len() as int),
{
    let counts = histogram(data);
    assert forall|i: int| 0 <= i < counts.len() implies counts[i] <= data.len() by {
        lemma_occurrences_bounded(data, i as u8);
    }
    lemma_weighted_logs_bounded(counts, data.len());
    lemma_histogram_counts_every_byte(data);
}

/// Counts that are zero but at one place add up to the term of that place.
proof fn lemma_weighted_logs_single(counts: Seq<nat>, at: int)
    requires
        forall|i: int| 0 <= i < counts.len() && i != at ==> counts[i] == 0,
    ensures
        weighted_logs(counts) == if 0 <= at < counts.len() {
            log_term(counts[at])
        } else {
            0
        },
    decreases counts.len(),
{
    if counts.len() > 0 {
        lemma_weighted_logs_single(counts.drop_last(), at);
    }
}

/// Equal counts add up to as many equal terms.
proof fn lemma_weighted_logs_uniform(counts: Seq<nat>, each: nat)
    requires
        forall|i: int| 0 <= i < counts.len() ==> counts[i] == each,
    ensures
        weighted_logs(counts) == counts.len() * log_term(each),
    decreases counts.len(),
{
    if counts.len() > 0 {
        lemma_weighted_logs_uniform(counts.drop_last(), each);
        assert(weighted_logs(counts) == counts.len() * log_term(each)) by (nonlinear_arith)
            requires
                weighted_logs(counts) == (counts.len() - 1) * log_term(each) + log_term(each),
        ;
    } else {
        assert(0 * log_term(each) == 0) by (nonlinear_arith);
    }
}

/// Data of one repeated byte has no entropy.
pub proof fn lemma_entropy_of_constant(data: Seq<u8>, value: u8)
    requires
        forall|i: int| 0 <= i < data.len() ==> data[i] == value,
    ensures
        entropy_of(data) == 0,
{
    if data.len() > 0 {
        let counts = histogram(data);
        let n = data.len();
        assert forall|i: int| 0 <= i < counts.len() && i != value as int implies counts[i]
            == 0 by {
            lemma_occurrences_of_constant(data, value, i as u8);
        }
        lemma_occurrences_of_constant(data, value, value);
        lemma_weighted_logs_single(counts, value as int);
        assert(weighted_logs(counts) == n * log2_q16(n));
        assert(0int / (n as int) == 0) by (nonlinear_arith)
            requires
                n > 0,
        ;
    }
}

/// Bytes that take each of the 256 values equally often have eight bits of
/// entropy, exactly.
pub proof fn lemma_entropy_of_uniform(counts: Seq<nat>, each: nat)
    requires
        counts.len() == 256,
        forall|i: int| 0 <= i < 256 ==> counts[i] == each,
        each >= 1,
        256 * each < 0x1_0000_0000_0000_0000,
    ensures
        entropy_q16(counts, 256 * each) == 8 * 65536,
{
    let n = 256 * each;
    lemma_weighted_logs_uniform(counts, each);
    lemma_log2_q16_of_double(each);
    lemma_log2_q16_of_double(2 * each);
    lemma_log2_q16_of_double(4 * each);
    lemma_log2_q16_of_double(8 * each);
    lemma_log2_q16_of_double(16 * each);
    lemma_log2_q16_of_double(32 * each);
    lemma_log2_q16_of_double(64 * each);
    lemma_log2_q16_of_double(128 * each);
    let l = log2_q16(each);
    assert(log2_q16(n) == l + 8 * 65536);
    let whole = n * log2_q16(n);
    let parts = weighted_logs(counts);
    assert(parts == n * l) by (nonlinear_arith)
        requires
            parts == 256 * (each * l),
            n == 256 * each,
    ;
    assert(whole - parts == n * 524288 && (whole - parts) / (n as int) == 524288)
        by (nonlinear_arith)
        requires
            whole == n * (l + 524288),
            parts == n * l,
            n > 0,
    ;
}

/// A sample of one repeated byte is quiet: its entropy is zero and it has no
/// suspicious region.
pub proof fn lemma_constant_sample_is_quiet(data: Seq<u8>, value: u8)
    requires
        forall|i: int| 0 <= i < data.len() ==> data[i] == value,
    ensures
        entropy_of(data) == 0,
        suspicious_regions_of(data).len() == 0,
{
    lemma_entropy_of_constant(data, value);
    let all = chunk_entropies(data);
    assert forall|i: int| 0 <= i < all.len() implies all[i] <= SUSPICION_THRESHOLD by {
        assert(i * 4096 < data.len());
        lemma_entropy_of_constant(chunk(data, i as nat), value);
    }
    lemma_flagged_empty(data.len(), all);
}

/// A chunk whose bytes take each of the 256 values equally often is a
/// suspicious region: it has eight bits of entropy, above the threshold.
pub proof fn lemma_uniform_chunk_is_suspicious(data: Seq<u8>, i: int, each: nat)
    requires
        0 <= i < chunk_count(data.len()),
        each >= 1,
        forall|b: int| 0 <= b < 256 ==> #[trigger] histogram(chunk(data, i as nat))[b] == each,
        chunk(data, i as nat).len() == 256 * each,
    ensures
        entropy_of(chunk(data, i as nat)) == 8 * 65536,
        suspicious_regions_of(data).len() > 0,
{
    let piece = chunk(data, i as nat);
    assert(i * 4096 < data.len());
    lemma_entropy_of_uniform(histogram(piece), each);
    lemma_flagged_nonempty(data.len(), chunk_entropies(data), i);
}

/// A power grows with its base.
proof fn lemma_pow_of_larger_base(low: int, high: int, e: nat)
    requires
        0 <= low <= high,
    ensures
        0 <= pow(low, e) <= pow(high, e),
        low < high && e >= 1 && low >= 1 ==> pow(low, e) < pow(high, e),
    decreases e,
{
    if e == 0 {
        lemma_pow0(low);
        lemma_pow0(high);
    } else {
        let rest = (e - 1) as nat;
        lemma_pow_of_larger_base(low, high, rest);
        lemma_pow_adds(low, 1, rest);
        lemma_pow_adds(high, 1, rest);
        lemma_pow1(low);
        lemma_pow1(high);
        let a = pow(low, rest);
        let b = pow(high, rest);
        if low >= 1 {
            lemma_pow_positive(low, rest);
        }
        assert(0 <= low * a <= high * b && (low < high && a >= 1 ==> low * a < high * b))
            by (nonlinear_arith)
            requires
                0 <= low <= high,
                0 <= a <= b,
        ;
    }
}

/// What one byte value adds, as a power: `2^(c * l) <= c^(65536 * c) <=
/// 2^(c * l + 2 * c)` for a count `c` with logarithm `l`; the upper bound is
/// strict when the value occurs at all.
proof fn lemma_log_term_brackets(count: nat)
    requires
        count < 0x1_0000_0000_0000_0000,
    ensures
        pow2(log_term(count)) <= pow(count as int, 65536 * count),
        pow(count as int, 65536 * count) <= pow2(log_term(count) + 2 * count),
        count >= 1 ==> pow(count as int, 65536 * count) < pow2(log_term(count) + 2 * count),
{
    lemma2_to64();
    if count == 0 {
        lemma_pow0(0);
    } else {
        let c = count as int;
        let l = log2_q16(count);
        lemma_log2_q16_brackets(count);
        lemma_pow2(l);
        lemma_pow2(l + 2);
        lemma_pow_positive(2, l);
        lemma_pow_positive(c, 65536);
        lemma_pow_of_larger_base(pow(2, l), pow(c, 65536), count);
        lemma_pow_of_larger_base(pow(c, 65536), pow(2, l + 2), count);
        lemma_pow_multiplies(2, l, count);
        lemma_pow_multiplies(2, l + 2, count);
        lemma_pow_multiplies(c, 65536, count);
        assert(l * count == count * l && (l + 2) * count == count * l + 2 * count)
            by (nonlinear_arith);
        lemma_pow2(count * l);
        lemma_pow2(count * l + 2 * count);
    }
}

/// The product of `c^(65536 * c)` over the counts: two to the power of the
/// true sum of `c * log2(c)`, times 65536.
pub open spec fn power_product(counts: Seq<nat>) -> int
    decreases counts.len(),
{
    if counts.len() == 0 {
        1
    } else {
        power_product(counts.drop_last()) * pow(counts.last() as int, 65536 * counts.last())
    }
}

/// The sum of logarithms brackets the product of powers:
/// `2^w <= product <= 2^(w + 2 * sum)` for the sum of logarithms `w`.
proof fn lemma_weighted_logs_brackets(counts: Seq<nat>)
    requires
        forall|i: int| 0 <= i < counts.len() ==> counts[i] < 0x1_0000_0000_0000_0000,
    ensures
        pow2(weighted_logs(counts)) <= power_product(counts),
        power_product(counts) <= pow2(weighted_logs(counts) + 2 * count_sum(counts)),
    decreases counts.len(),
{
    lemma2_to64();
    if counts.len() > 0 {
        let c = counts.last();
        let w = weighted_logs(counts.drop_last());
        let s = count_sum(counts.drop_last());
        lemma_weighted_logs_brackets(counts.drop_last());
        lemma_log_term_brackets(c);
        lemma_pow2_adds(w, log_term(c));
        lemma_pow2_adds(w + 2 * s, log_term(c) + 2 * c);
        let p = power_product(counts.drop_last());
        let t = pow(c as int, 65536 * c);
        let (a, b) = (pow2(w), pow2(log_term(c)));
        let (x, y) = (pow2(w + 2 * s), pow2(log_term(c) + 2 * c));
        assert(a * b <= p * t && p * t <= x * y) by (nonlinear_arith)
            requires
                0 <= a <= p <= x,
                0 <= b <= t <= y,
        ;
        assert(w + 2 * s + (log_term(c) + 2 * c) == weighted_logs(counts) + 2 * count_sum(counts));
    }
}

/// How close the entropy is to the Shannon entropy.
///
/// For `n` bytes with counts `c`, the Shannon entropy `H` has
/// `2^(65536 * n * H) = n^(65536 * n) / product of c^(65536 * c)`. With
/// `d = n * log2_q16(n) - weighted_logs`, the number that the entropy is the
/// `n`-th part of, this quotient lies between `2^(d - 2n)` and `2^(d + 2n)`:
/// `d / n` is within two steps of `65536 * H`, and the entropy, which rounds
/// `d / n` down, within three.
pub proof fn lemma_entropy_brackets(data: Seq<u8>)
    requires
        0 < data.len() < 0x1_0000_0000_0000_0000,
    ensures
        ({
            let n = data.len();
            let d = (n * log2_q16(n) - weighted_logs(histogram(data))) as nat;
            &&& n * log2_q16(n) >= weighted_logs(histogram(data))
            &&& pow2(d) * power_product(histogram(data)) <= pow2(2 * n) * pow(n as int, 65536 * n)
            &&& pow(n as int, 65536 * n) < pow2(d + 2 * n) * power_product(histogram(data))
        }),
{
    let n = data.len();
    let counts = histogram(data);
    let w = weighted_logs(counts);
    lemma_entropy_is_the_difference(data);
    lemma_histogram_counts_every_byte(data);
    let d = (n * log2_q16(n) - w) as nat;
    assert forall|i: int| 0 <= i < counts.len() implies counts[i] < 0x1_0000_0000_0000_0000 by {
        lemma_occurrences_bounded(data, i as u8);
    }
    lemma_weighted_logs_brackets(counts);
    lemma_log_term_brackets(n);
    let big = pow(n as int, 65536 * n);
    let product = power_product(counts);
    // below: 2^d * product <= 2^d * 2^(w + 2n) = 2^(n l) * 2^(2n) <= n^(65536 n) * 2^(2n)
    lemma_pow2_adds(d, w + 2 * n);
    lemma_pow2_adds(n * log2_q16(n), 2 * n);
    assert(d + (w + 2 * n) == n * log2_q16(n) + 2 * n);
    let (pd, pw2, pl, p2n) = (pow2(d), pow2(w + 2 * n), pow2(n * log2_q16(n)), pow2(2 * n));
    assert(pd * product <= p2n * big) by (nonlinear_arith)
        requires
            0 <= product <= pw2,
            pd * pw2 == pl * p2n,
            0 <= pl <= big,
            pd >= 0,
            p2n >= 0,
    ;
    // above: n^(65536 n) < 2^(n l + 2n) = 2^(d + 2n) * 2^w <= 2^(d + 2n) * product
    lemma_pow2_adds(d + 2 * n, w);
    assert((d + 2 * n) + w == n * log2_q16(n) + 2 * n);
    let (pd2, pw) = (pow2(d + 2 * n), pow2(w));
    assert(big < pd2 * product) by (nonlinear_arith)
        requires
            big < pd2 * pw,
            0 <= pw <= product,
            pd2 >= 0,
    ;
}

} // verus!
