//! Choice of the bass peak in a magnitude spectrum.
//!
//! A magnitude is carried as an ordering key: a non-negative integer whose
//! order is the order of the magnitudes, zero for a zero magnitude (for a
//! non-negative IEEE-754 value its bit pattern is such a key).
use vstd::prelude::*;

verus! {

/// Whether bin `j` of a `window_size`-point transform of audio sampled at
/// `sample_rate` Hz lies strictly below `cutoff_hz`: its frequency
/// `j · sample_rate / window_size` is less than the cutoff.
pub open spec fn below_cutoff(j: int, sample_rate: int, window_size: int, cutoff_hz: int) -> bool {
    j * sample_rate < cutoff_hz * window_size
}

/// Whether bin `j` of `magnitudes` is a bass candidate.
pub open spec fn is_candidate(
    magnitudes: Seq<u32>,
    j: int,
    sample_rate: int,
    window_size: int,
    cutoff_hz: int,
) -> bool {
    0 <= j < magnitudes.len() && below_cutoff(j, sample_rate, window_size, cutoff_hz)
}

/// Whether `r` is the bass peak of `magnitudes`: the first bin of greatest
/// magnitude among the candidates, provided that it is not bin 0 (zero
/// frequency) and its magnitude is positive; `None` when no candidate above
/// bin 0 is louder than bin 0, which covers an all-zero spectrum and one with
/// no candidate.
pub open spec fn is_bass_peak(
    magnitudes: Seq<u32>,
    sample_rate: int,
    window_size: int,
    cutoff_hz: int,
    r: Option<usize>,
) -> bool {
    match r {
        Some(k) => {
            &&& k > 0
            &&& is_candidate(magnitudes, k as int, sample_rate, window_size, cutoff_hz)
            &&& magnitudes[k as int] > 0
            &&& forall|j: int| is_candidate(magnitudes, j, sample_rate, window_size, cutoff_hz)
                ==> magnitudes[j] <= magnitudes[k as int]
            &&& forall|j: int| 0 <= j < k ==> magnitudes[j] < magnitudes[k as int]
        },
        None => forall|j: int|
            is_candidate(magnitudes, j, sample_rate, window_size, cutoff_hz) && j > 0
            ==> magnitudes[j] <= magnitudes[0],
    }
}

/// Index of the bass peak of `magnitudes` (see `is_bass_peak`); its
/// frequency is `k · sample_rate / window_size`.
pub fn pick_peak_bin(magnitudes: &Vec<u32>, sample_rate: u32, window_size: usize, cutoff_hz: u32) -> (r: Option<usize>)
    requires
        sample_rate > 0,
    ensures
        is_bass_peak(magnitudes@, sample_rate as int, window_size as int, cutoff_hz as int, r),
{
    proof {
        assert(cutoff_hz as int * window_size as int <= 0xffff_ffff * 0xffff_ffff_ffff_ffff) by (nonlinear_arith)
            requires cutoff_hz <= 0xffff_ffff, window_size <= 0xffff_ffff_ffff_ffff;
    }
    let limit: u128 = cutoff_hz as u128 * window_size as u128;
    let mut max_magnitude: u32 = 0;
    let mut best: usize = 0;
    let mut j: usize = 0;
    while j < magnitudes.len()
        invariant
            j <= magnitudes@.len(),
            sample_rate > 0,
            limit == cutoff_hz as int * window_size as int,
            forall|i: int| 0 <= i < j ==> below_cutoff(i, sample_rate as int, window_size as int, cutoff_hz as int),
            forall|i: int| 0 <= i < j ==> magnitudes@[i] <= max_magnitude,
            max_magnitude > 0 ==> best < j && magnitudes@[best as int] == max_magnitude
                && forall|i: int| 0 <= i < best ==> magnitudes@[i] < max_magnitude,
            max_magnitude == 0 ==> best == 0,
        ensures
            j <= magnitudes@.len(),
            forall|i: int| 0 <= i < j ==> magnitudes@[i] <= max_magnitude,
            max_magnitude > 0 ==> best < j && magnitudes@[best as int] == max_magnitude
                && forall|i: int| 0 <= i < best ==> magnitudes@[i] < max_magnitude,
            max_magnitude == 0 ==> best == 0,
            forall|i: int| is_candidate(magnitudes@, i, sample_rate as int, window_size as int, cutoff_hz as int)
                ==> i < j,
        decreases magnitudes@.len() - j,
    {
        proof {
            assert(j as int * sample_rate as int <= 0xffff_ffff_ffff_ffff * 0xffff_ffff) by (nonlinear_arith)
                requires sample_rate <= 0xffff_ffff, j <= 0xffff_ffff_ffff_ffff;
        }
        let freq_scaled: u128 = j as u128 * sample_rate as u128;
        if freq_scaled >= limit {
            proof {
                assert forall|i: int| j <= i && is_candidate(magnitudes@, i, sample_rate as int, window_size as int, cutoff_hz as int)
                    implies false by {
                    assert(i * sample_rate >= j * sample_rate) by (nonlinear_arith)
                        requires i >= j, sample_rate > 0;
                }
            }
            break;
        }
        if magnitudes[j] > max_magnitude {
            max_magnitude = magnitudes[j];
            best = j;
        }
        j = j + 1;
    }
    if best > 0 {
        Some(best)
    } else {
        None
    }
}

/// The bass peak is unique: two results that both meet `is_bass_peak` on
/// spectra that agree on every candidate bin are equal.
pub proof fn lemma_bass_peak_unique(
    m1: Seq<u32>,
    m2: Seq<u32>,
    sample_rate: int,
    window_size: int,
    cutoff_hz: int,
    r1: Option<usize>,
    r2: Option<usize>,
)
    requires
        sample_rate > 0,
        window_size > 0,
        cutoff_hz > 0,
        m1.len() > 0,
        m2.len() > 0,
        forall|j: int| is_candidate(m1, j, sample_rate, window_size, cutoff_hz)
            <==> is_candidate(m2, j, sample_rate, window_size, cutoff_hz),
        forall|j: int| is_candidate(m1, j, sample_rate, window_size, cutoff_hz) ==> m1[j] == m2[j],
        is_bass_peak(m1, sample_rate, window_size, cutoff_hz, r1),
        is_bass_peak(m2, sample_rate, window_size, cutoff_hz, r2),
    ensures
        r1 == r2,
{
    assert(0 * sample_rate < cutoff_hz * window_size) by (nonlinear_arith)
        requires cutoff_hz > 0, window_size > 0;
    assert(is_candidate(m1, 0, sample_rate, window_size, cutoff_hz));
    match (r1, r2) {
        (Some(a), Some(b)) => {
            if a < b {
                assert(m2[a as int] < m2[b as int]);
            } else if b < a {
                assert(m1[b as int] < m1[a as int]);
            }
        },
        (Some(a), None) => {
            assert(m1[0] < m1[a as int]);
        },
        (None, Some(b)) => {
            assert(m2[0] < m2[b as int]);
        },
        (None, None) => {},
    }
}

/// A spectrum that is zero everywhere but at one candidate bin `k > 0` has
/// its bass peak at `k`; an all-zero spectrum has none.
pub proof fn lemma_single_bin_is_the_peak(
    magnitudes: Seq<u32>,
    sample_rate: int,
    window_size: int,
    cutoff_hz: int,
    k: int,
    r: Option<usize>,
)
    requires
        is_bass_peak(magnitudes, sample_rate, window_size, cutoff_hz, r),
        forall|j: int| 0 <= j < magnitudes.len() && j != k ==> magnitudes[j] == 0,
    ensures
        (k > 0 && is_candidate(magnitudes, k, sample_rate, window_size, cutoff_hz) && magnitudes[k] > 0)
            ==> r == Some(k as usize),
        (forall|j: int| 0 <= j < magnitudes.len() ==> magnitudes[j] == 0) ==> r is None,
{
    if k > 0 && is_candidate(magnitudes, k, sample_rate, window_size, cutoff_hz) && magnitudes[k] > 0 {
        match r {
            Some(b) => {},
            None => {
                assert(magnitudes[k] <= magnitudes[0]);
            },
        }
    }
}

/// Bins at or above the cutoff never matter: raising or lowering any of
/// them, even above every candidate, leaves the bass peak as it was.
pub proof fn lemma_peak_ignores_bins_above_cutoff(
    m1: Seq<u32>,
    m2: Seq<u32>,
    sample_rate: int,
    window_size: int,
    cutoff_hz: int,
    r1: Option<usize>,
    r2: Option<usize>,
)
    requires
        sample_rate > 0,
        window_size > 0,
        cutoff_hz > 0,
        m1.len() > 0,
        m1.len() == m2.len(),
        forall|j: int| 0 <= j < m1.len() && below_cutoff(j, sample_rate, window_size, cutoff_hz)
            ==> m1[j] == m2[j],
        is_bass_peak(m1, sample_rate, window_size, cutoff_hz, r1),
        is_bass_peak(m2, sample_rate, window_size, cutoff_hz, r2),
    ensures
        r1 == r2,
{
    lemma_bass_peak_unique(m1, m2, sample_rate, window_size, cutoff_hz, r1, r2);
}

} // verus!
