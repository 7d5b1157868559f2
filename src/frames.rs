//! Positions of the overlapping analysis frames within a sample buffer.
use vstd::prelude::*;

verus! {

/// Number of frames of `window` samples, `hop` samples apart and starting at
/// sample 0, that lie wholly inside a buffer of `len` samples with at least
/// one sample after them (a frame at `s` is taken only when `s + window < len`).
/// A zero hop yields no frames.
pub open spec fn num_frames(len: int, window: int, hop: int) -> nat {
    if hop <= 0 || window >= len {
        0
    } else {
        ((len - window - 1) / hop + 1) as nat
    }
}

proof fn lemma_frame_count(len: int, window: int, hop: int, k: int)
    requires
        hop > 0,
        k >= 1,
        (k - 1) * hop + window < len,
        k * hop + window >= len,
    ensures
        num_frames(len, window, hop) == k,
{
    let x = len - window - 1;
    assert((k - 1) * hop >= 0) by (nonlinear_arith)
        requires k >= 1, hop > 0;
    assert(k * hop == (k - 1) * hop + hop) by (nonlinear_arith);
    vstd::arithmetic::div_mod::lemma_fundamental_div_mod_converse(
        x, hop, k - 1, x - (k - 1) * hop);
}

/// Start positions of the frames scanned over a buffer of `buffer_len`
/// samples: `0, hop, 2·hop, ...` for as long as `start + window_size <
/// buffer_len`. A window no shorter than the buffer, or a zero hop, gives none.
pub fn frame_starts(buffer_len: usize, window_size: usize, hop_size: usize) -> (r: Vec<usize>)
    ensures
        r@.len() == num_frames(buffer_len as int, window_size as int, hop_size as int),
        forall|t: int| 0 <= t < r@.len() ==> r@[t] == t * hop_size,
        forall|t: int| 0 <= t < r@.len() ==> r@[t] + window_size < buffer_len,
{
    let mut starts: Vec<usize> = Vec::new();
    if hop_size == 0 || window_size >= buffer_len {
        return starts;
    }
    let mut i: usize = 0;
    proof {
        assert(starts@.len() * hop_size == 0) by (nonlinear_arith)
            requires starts@.len() == 0;
    }
    loop
        invariant_except_break
            i + window_size < buffer_len,
            i == starts@.len() * hop_size,
        invariant
            hop_size > 0,
            forall|t: int| 0 <= t < starts@.len() ==> starts@[t] == t * hop_size,
            forall|t: int| 0 <= t < starts@.len() ==> starts@[t] + window_size < buffer_len,
        ensures
            hop_size > 0,
            starts@.len() >= 1,
            (starts@.len() - 1) * hop_size + window_size < buffer_len,
            starts@.len() * hop_size + window_size >= buffer_len,
            forall|t: int| 0 <= t < starts@.len() ==> starts@[t] == t * hop_size,
            forall|t: int| 0 <= t < starts@.len() ==> starts@[t] + window_size < buffer_len,
        decreases buffer_len - i,
    {
        let ghost k = starts@.len();
        starts.push(i);
        proof {
            assert((k + 1) * hop_size == k * hop_size + hop_size) by (nonlinear_arith);
        }
        if hop_size >= buffer_len - i - window_size {
            break;
        }
        i = i + hop_size;
    }
    proof {
        lemma_frame_count(buffer_len as int, window_size as int, hop_size as int, starts@.len() as int);
    }
    starts
}

} // verus!
