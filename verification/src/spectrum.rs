//! The spectral stage around the transform: choosing the transform length,
//! zero-padding, and the peak search over the magnitude spectrum.
//!
//! The transform itself and the magnitudes are floating computations of
//! the shell. The shell hands the magnitudes back as integer keys whose
//! order mirrors the order of the magnitudes (non-finite magnitudes mapped
//! below every finite one), so the peak search and its lowest-index
//! tie-break are exact here. Bin `k` of a spectrum of length N at
//! effective rate R corresponds to the exact rational frequency
//! `k * R / N` Hertz for `k < N/2`; the bins beyond N/2 are the mirror of
//! the lower half and are ignored by convention — the search-range
//! fraction and the acceptance band keep them out of every musical
//! verdict.

use vstd::prelude::*;
use vstd::arithmetic::div_mod::{
    lemma_div_is_ordered, lemma_div_by_multiple, lemma_fundamental_div_mod,
};
use vstd::arithmetic::mul::lemma_mul_inequality;
use crate::config::PitchConfig;

verus! {

/// Whether a length is a power of two.
pub open spec fn is_pow2(m: nat) -> bool
    decreases m,
{
    if m == 0 {
        false
    } else if m == 1 {
        true
    } else {
        m % 2 == 0 && is_pow2(m / 2)
    }
}

/// Distinct powers of two are at least a factor of two apart.
proof fn lemma_pow2_gap(p: nat, r: nat)
    requires
        is_pow2(p),
        is_pow2(r),
        p > r,
    ensures
        p >= 2 * r,
    decreases r,
{
    if r == 1 {
        assert(p % 2 == 0);
    } else {
        assert(p % 2 == 0 && r % 2 == 0);
        lemma_pow2_gap(p / 2, r / 2);
    }
}

/// The smallest power of two at or above `m`: the transform-friendly
/// length the spectral stage zero-pads to. A length already a power of
/// two is its own padding target.
pub fn next_pow_two(m: usize) -> (r: usize)
    requires
        m <= usize::MAX / 2,
    ensures
        is_pow2(r as nat),
        r >= m,
        forall|p: nat| #[trigger] is_pow2(p) && p >= m ==> p >= r,
        is_pow2(m as nat) ==> r == m,
{
    if m <= 1 {
        proof {
            assert forall|p: nat| #[trigger] is_pow2(p) && p >= m implies p >= 1 by {
                assert(p != 0);
            }
        }
        return 1;
    }
    let mut r: usize = 1;
    while r < m
        invariant
            2 <= m <= usize::MAX / 2,
            1 <= r <= 2 * (m - 1),
            is_pow2(r as nat),
            forall|p: nat| #[trigger] is_pow2(p) && p >= m ==> p >= r,
        decreases 2 * m - r,
    {
        let ghost r_old = r as nat;
        r = r * 2;
        proof {
            assert((r as nat) % 2 == 0);
            assert((r as nat) / 2 == r_old);
            assert(is_pow2(r as nat));
            assert forall|p: nat| #[trigger] is_pow2(p) && p >= m implies p >= r by {
                lemma_pow2_gap(p, r_old);
            }
        }
    }
    r
}

/// The transform length for a conditioned length `m`: the next power of
/// two when padding is on, the exact length itself when it is off. Both
/// modes are supported on purpose.
pub fn transform_len(m: usize, pad: bool) -> (r: usize)
    requires
        m <= usize::MAX / 2,
    ensures
        !pad ==> r == m,
        pad ==> is_pow2(r as nat) && r >= m,
        pad ==> forall|p: nat| #[trigger] is_pow2(p) && p >= m ==> p >= r,
        pad && is_pow2(m as nat) ==> r == m,
{
    if pad {
        next_pow_two(m)
    } else {
        m
    }
}

/// A buffer zero-padded to transform length `n`: the samples for indices
/// below the buffer length, zero beyond it.
pub open spec fn zero_padded(s: Seq<int>, n: nat) -> Seq<int> {
    Seq::new(n, |i: int| if i < s.len() { s[i] } else { 0 })
}

/// Zero-padding idempotence: padding a buffer to its own length changes
/// nothing. Together with the fixed-point clause of `next_pow_two` — a
/// power-of-two length is its own padding target — the transform input,
/// and with it the magnitude spectrum, is the same for a power-of-two
/// length whether or not the pad-to-next-power-of-two step is invoked.
pub proof fn lemma_zero_padding_identity(s: Seq<int>)
    ensures
        zero_padded(s, s.len()) == s,
{
    assert(zero_padded(s, s.len()) =~= s);
}

/// Index of the dominant bin: the first index attaining the maximum key
/// among the first `search_len` bins — a left-to-right scan with a strict
/// comparison, so ties resolve to the lowest index. An empty search range
/// yields index 0 as a policy fallback, not an error.
pub fn peak_index(keys: &Vec<u32>, search_len: usize) -> (r: usize)
    requires
        search_len <= keys@.len(),
    ensures
        search_len == 0 ==> r == 0,
        search_len > 0 ==> r < search_len,
        forall|j: int| 0 <= j < search_len ==> keys@[j] <= keys@[r as int],
        forall|j: int| 0 <= j < r ==> keys@[j] < keys@[r as int],
{
    if search_len == 0 {
        return 0;
    }
    let mut best: usize = 0;
    let mut i: usize = 1;
    while i < search_len
        invariant
            1 <= i <= search_len <= keys@.len(),
            best < i,
            forall|j: int| 0 <= j < i ==> keys@[j] <= keys@[best as int],
            forall|j: int| 0 <= j < best ==> keys@[j] < keys@[best as int],
        decreases search_len - i,
    {
        if keys[i] > keys[best] {
            best = i;
        }
        i = i + 1;
    }
    best
}

/// Peak tie-break determinism: when exactly two bins `i < j` attain the
/// maximum of the searched range, a scan result that attains the maximum
/// with every earlier bin strictly below it — what `peak_index` returns —
/// is `i`, the lower of the two.
pub proof fn lemma_peak_tie_break(keys: Seq<u32>, search_len: int, r: int, i: int, j: int)
    requires
        0 <= i < j < search_len <= keys.len(),
        keys[i] == keys[j],
        forall|k: int| 0 <= k < search_len ==> keys[k] <= keys[i],
        forall|k: int| 0 <= k < search_len && k != i && k != j ==> keys[k] < keys[i],
        0 <= r < search_len,
        forall|k: int| 0 <= k < search_len ==> keys[k] <= keys[r],
        forall|k: int| 0 <= k < r ==> keys[k] < keys[r],
    ensures
        r == i,
{
    assert(keys[r] <= keys[i]);
    assert(keys[i] <= keys[r]);
    if r != i && r != j {
        assert(keys[r] < keys[i]);
    }
    if r == j {
        assert(keys[i] < keys[r]);
    }
}

/// Number of bins the search-range fraction admits: the floor of
/// `n * num / den`, never more than `n`.
pub fn search_span(n: usize, num: u32, den: u32) -> (r: usize)
    requires
        1 <= num <= den,
    ensures
        r == n as int * num as int / den as int,
        r <= n,
{
    proof {
        assert(n as int * num as int <= 0xFFFF_FFFF_FFFF_FFFFint * 0xFFFF_FFFF)
            by (nonlinear_arith)
            requires
                0 <= n <= 0xFFFF_FFFF_FFFF_FFFF && 0 <= num <= 0xFFFF_FFFF,
        ;
    }
    let wide: u128 = (n as u128) * (num as u128) / (den as u128);
    proof {
        lemma_mul_inequality(num as int, den as int, n as int);
        lemma_div_is_ordered(n as int * num as int, n as int * den as int, den as int);
        lemma_div_by_multiple(n as int, den as int);
    }
    wide as usize
}

/// Outcome of the peak search on one magnitude spectrum.
pub struct PeakVerdict {
    /// Index of the dominant bin.
    pub index: usize,
    /// Exact numerator of the dominant frequency: the frequency in Hertz
    /// is `freq_num / spectrum_len`.
    pub freq_num: u64,
    /// Transform size N, the denominator of the frequency.
    pub spectrum_len: usize,
    /// Whether the dominant frequency lies inside the acceptance band.
    pub in_range: bool,
}

/// The searched prefix length of a spectrum of length `n`.
pub open spec fn spec_search_len(n: int, cfg: &PitchConfig) -> int {
    n * cfg.search_num / cfg.search_den as int
}

/// Whether the exact rational frequency `idx * rate / n` lies inside the
/// acceptance band, both edges inclusive.
pub open spec fn spec_in_range(idx: int, rate: int, n: int, cfg: &PitchConfig) -> bool {
    cfg.min_hz * n <= idx * rate && idx * rate <= cfg.max_hz * n
}

/// Searches the magnitude spectrum for the dominant bin, restricted to
/// the configured fraction of the bins, and judges the dominant frequency
/// against the acceptance band — exactly, over the rational
/// `index * rate / n`.
pub fn find_peak(keys: &Vec<u32>, rate: u32, cfg: &PitchConfig) -> (r: PeakVerdict)
    requires
        cfg.wf(),
        1 <= keys@.len() <= 0x1_0000_0000,
    ensures
        r.spectrum_len == keys@.len(),
        r.freq_num == r.index * rate,
        r.index < keys@.len(),
        spec_search_len(keys@.len() as int, cfg) == 0 ==> r.index == 0,
        spec_search_len(keys@.len() as int, cfg) > 0 ==> r.index < spec_search_len(
            keys@.len() as int,
            cfg,
        ),
        forall|j: int|
            0 <= j < spec_search_len(keys@.len() as int, cfg) ==> #[trigger] keys@[j]
                <= keys@[r.index as int],
        forall|j: int| 0 <= j < r.index ==> #[trigger] keys@[j] < keys@[r.index as int],
        r.in_range == spec_in_range(r.index as int, rate as int, keys@.len() as int, cfg),
{
    let n = keys.len();
    let sl = search_span(n, cfg.search_num, cfg.search_den);
    let idx = peak_index(keys, sl);
    proof {
        assert(idx as int * rate as int <= 0xFFFF_FFFFint * 0xFFFF_FFFF) by (nonlinear_arith)
            requires
                0 <= idx <= 0xFFFF_FFFF && 0 <= rate <= 0xFFFF_FFFF,
        ;
        assert(cfg.min_hz as int * n as int <= 0xFFFF_FFFFint * 0x1_0000_0000) by (nonlinear_arith)
            requires
                0 <= cfg.min_hz <= 0xFFFF_FFFF && 0 <= n <= 0x1_0000_0000,
        ;
        assert(cfg.max_hz as int * n as int <= 0xFFFF_FFFFint * 0x1_0000_0000) by (nonlinear_arith)
            requires
                0 <= cfg.max_hz <= 0xFFFF_FFFF && 0 <= n <= 0x1_0000_0000,
        ;
    }
    let freq_num: u64 = (idx as u64) * (rate as u64);
    let lo: u128 = (cfg.min_hz as u128) * (n as u128);
    let hi: u128 = (cfg.max_hz as u128) * (n as u128);
    let fr: u128 = (idx as u128) * (rate as u128);
    let in_range = lo <= fr && fr <= hi;
    PeakVerdict { index: idx, freq_num, spectrum_len: n, in_range }
}

} // verus!
