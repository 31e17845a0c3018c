//! Sample decimation of the heave-pitch phase portrait: every fourth sample
//! of the time series is drawn.

use vstd::prelude::*;

verus! {

/// Distance, in samples, between two points drawn in the phase portrait.
pub const PHASE_STRIDE: usize = 4;

/// `idx` lists, in order, every `PHASE_STRIDE`-th sample index below `len`,
/// starting at the first sample.
pub open spec fn is_phase_decimation(len: nat, idx: Seq<usize>) -> bool {
    &&& forall|k: int| 0 <= k < idx.len() ==> #[trigger] idx[k] == k * PHASE_STRIDE
    &&& forall|k: int| 0 <= k < idx.len() ==> #[trigger] idx[k] < len
    &&& idx.len() * PHASE_STRIDE >= len
}

/// Indices of the samples of a series of `len` samples that the phase
/// portrait draws.
pub fn phase_sample_indices(len: usize) -> (idx: Vec<usize>)
    ensures
        is_phase_decimation(len as nat, idx@),
{
    let mut idx: Vec<usize> = Vec::new();
    let mut i: usize = 0;
    while i < len
        invariant_except_break
            i == idx.len() * PHASE_STRIDE,
        invariant
            forall|k: int| 0 <= k < idx.len() ==> #[trigger] idx@[k] == k * PHASE_STRIDE,
            forall|k: int| 0 <= k < idx.len() ==> #[trigger] idx@[k] < len,
        ensures
            idx.len() * PHASE_STRIDE >= len,
        decreases len - i,
    {
        idx.push(i);
        if len - i <= PHASE_STRIDE {
            break;
        }
        i = i + PHASE_STRIDE;
    }
    idx
}

/// Decimating a series keeps `ceil(len / PHASE_STRIDE)` samples.
pub proof fn lemma_phase_sample_count(len: nat, idx: Seq<usize>)
    requires
        is_phase_decimation(len, idx),
    ensures
        idx.len() == (len + PHASE_STRIDE - 1) / (PHASE_STRIDE as int),
{
    let m = idx.len();
    if m > 0 {
        assert(idx[m - 1] == (m - 1) * 4);
    }
    assert(m == (len + 3) / 4) by (nonlinear_arith)
        requires
            m * 4 >= len,
            m == 0 || (m - 1) * 4 < len,
    ;
}

} // verus!
