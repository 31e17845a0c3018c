//! Segment schedule of the Welch power spectral density estimator:
//! Hann-windowed segments of `nperseg` samples with a half-segment overlap,
//! and the one-sided weighting of the frequency bins.

use vstd::prelude::*;

verus! {

/// Samples shared by two consecutive segments (half a segment, rounded down).
pub open spec fn spec_overlap(nperseg: nat) -> nat {
    nperseg / 2
}

/// Distance between the starts of two consecutive segments.
pub open spec fn spec_step(nperseg: nat) -> nat {
    (nperseg - nperseg / 2) as nat
}

/// Number of frequency bins of a one-sided spectrum of a real segment.
pub open spec fn spec_nfreq(nperseg: nat) -> nat {
    nperseg / 2 + 1
}

/// `starts` are the starts of the segments that the estimator averages over
/// a signal of `n` samples: the k-th segment starts at `k * step`, every one
/// of them lies inside the signal, and the next one would not.
pub open spec fn is_segment_schedule(n: nat, nperseg: nat, starts: Seq<usize>) -> bool {
    &&& forall|k: int| 0 <= k < starts.len() ==> #[trigger] starts[k] == k * spec_step(nperseg)
    &&& forall|k: int| 0 <= k < starts.len() ==> #[trigger] starts[k] + nperseg <= n
    &&& starts.len() * spec_step(nperseg) + nperseg > n
}

/// Weight of bin `i` in a one-sided spectrum of `nfreq` bins: the interior
/// bins carry the power of their negative-frequency twins, the zero bin and
/// the last bin do not.
pub open spec fn spec_bin_weight(i: nat, nfreq: nat) -> nat {
    if 0 < i && i + 1 < nfreq {
        2
    } else {
        1
    }
}

/// Layout of a Welch estimate over a signal of a given length.
pub struct WelchPlan {
    /// Samples per segment.
    pub nperseg: usize,
    /// Samples shared by consecutive segments.
    pub noverlap: usize,
    /// Distance between consecutive segment starts.
    pub step: usize,
    /// Number of one-sided frequency bins.
    pub nfreq: usize,
    /// Start of each segment, in order.
    pub starts: Vec<usize>,
}

/// Lays out the segments of a Welch estimate over `n` samples with segments
/// of `nperseg` samples and a half-segment overlap.
pub fn welch_plan(n: usize, nperseg: usize) -> (plan: WelchPlan)
    requires
        nperseg > 0,
    ensures
        plan.nperseg == nperseg,
        plan.noverlap == spec_overlap(nperseg as nat),
        plan.step == spec_step(nperseg as nat),
        plan.nfreq == spec_nfreq(nperseg as nat),
        is_segment_schedule(n as nat, nperseg as nat, plan.starts@),
        2 * plan.noverlap <= nperseg <= 2 * plan.noverlap + 1,
        plan.noverlap + plan.step == nperseg,
        plan.nfreq == nperseg / 2 + 1,
        forall|k: int|
            0 <= k < plan.starts.len() ==> #[trigger] plan.starts@[k] == k * (nperseg - nperseg
                / 2),
{
    let noverlap = nperseg / 2;
    let step = nperseg - noverlap;
    let nfreq = nperseg / 2 + 1;
    let mut starts: Vec<usize> = Vec::new();
    assert(starts@.len() * step == 0) by (nonlinear_arith)
        requires
            starts@.len() == 0,
    ;
    if n >= nperseg {
        let last = n - nperseg;
        let mut start: usize = 0;
        while start <= last
            invariant_except_break
                start == starts.len() * step,
            invariant
                step == spec_step(nperseg as nat),
                step > 0,
                last + nperseg == n,
                forall|k: int| 0 <= k < starts.len() ==> #[trigger] starts@[k] == k * step,
                forall|k: int| 0 <= k < starts.len() ==> #[trigger] starts@[k] + nperseg <= n,
            ensures
                starts.len() * step + nperseg > n,
            decreases last + step - start,
        {
            let ghost len_before = starts@.len();
            starts.push(start);
            assert(starts@.len() * step == start + step) by (nonlinear_arith)
                requires
                    starts@.len() == len_before + 1,
                    start == len_before * step,
            ;
            if last - start < step {
                break;
            }
            start = start + step;
        }
    }
    WelchPlan { nperseg, noverlap, step, nfreq, starts }
}

/// Weight of frequency bin `i` out of `nfreq` in the one-sided spectrum.
pub fn bin_weight(i: usize, nfreq: usize) -> (w: u32)
    requires
        nfreq >= 1,
    ensures
        w == spec_bin_weight(i as nat, nfreq as nat),
{
    if i > 0 && i < nfreq - 1 {
        2
    } else {
        1
    }
}

/// Closed form of the number of segments: none when the signal is shorter
/// than one segment, else one plus the whole steps that fit after the first.
pub open spec fn spec_segment_count(n: nat, nperseg: nat) -> nat {
    if n < nperseg {
        0
    } else {
        ((n - nperseg) as nat) / spec_step(nperseg) + 1
    }
}

/// The schedule has as many segments as the closed form says.
pub proof fn lemma_segment_count(n: nat, nperseg: nat, starts: Seq<usize>)
    requires
        nperseg > 0,
        is_segment_schedule(n, nperseg, starts),
    ensures
        starts.len() == spec_segment_count(n, nperseg),
{
    let step = spec_step(nperseg);
    let len = starts.len();
    if len == 0 {
        assert(n < nperseg);
    } else {
        let last = starts[len - 1];
        assert(last == (len - 1) * step);
        assert(last + nperseg <= n);
        let r = (n - nperseg) as nat;
        assert(len * step == (len - 1) * step + step) by (nonlinear_arith);
        assert(r / step == len - 1) by (nonlinear_arith)
            requires
                step > 0,
                (len - 1) * step <= r,
                r < len * step,
                len * step == (len - 1) * step + step,
        {
            vstd::arithmetic::div_mod::lemma_fundamental_div_mod(r as int, step as int);
            let q = r / step;
            let m = r % step;
            assert(0 <= m < step);
            if q < len - 1 {
                assert(q + 1 <= len - 1);
                assert((q + 1) * step <= (len - 1) * step);
            } else if q > len - 1 {
                assert(len <= q);
                assert(len * step <= q * step);
            }
        }
    }
}

/// A signal length and a segment length admit exactly one schedule.
pub proof fn lemma_schedule_unique(n: nat, nperseg: nat, a: Seq<usize>, b: Seq<usize>)
    requires
        nperseg > 0,
        is_segment_schedule(n, nperseg, a),
        is_segment_schedule(n, nperseg, b),
    ensures
        a == b,
{
    lemma_segment_count(n, nperseg, a);
    lemma_segment_count(n, nperseg, b);
    assert forall|k: int| 0 <= k < a.len() implies a[k] == b[k] by {
        assert(a[k] == k * spec_step(nperseg));
        assert(b[k] == k * spec_step(nperseg));
    }
    assert(a =~= b);
}

/// The overlap is half a segment, rounded down, for every segment length:
/// twice the overlap is the segment length, or one less when it is odd, and
/// the step is the rest of the segment.
pub proof fn lemma_overlap_is_half_segment(nperseg: nat)
    ensures
        spec_overlap(nperseg) == nperseg / 2,
        2 * spec_overlap(nperseg) <= nperseg <= 2 * spec_overlap(nperseg) + 1,
        spec_overlap(nperseg) + spec_step(nperseg) == nperseg,
        spec_step(nperseg) == nperseg - nperseg / 2,
        nperseg % 2 == 0 ==> spec_step(nperseg) == spec_overlap(nperseg),
{
}

/// Consecutive segments overlap by half a segment, rounded down (50 % overlap):
/// the samples shared by segments k and k + 1 are `nperseg / 2`, and for an
/// even segment length exactly as many as each segment has of its own.
pub proof fn lemma_half_overlap(n: nat, nperseg: nat, starts: Seq<usize>, k: int)
    requires
        is_segment_schedule(n, nperseg, starts),
        0 <= k,
        k + 1 < starts.len(),
    ensures
        starts[k] + nperseg - starts[k + 1] == nperseg / 2,
        starts[k] == k * (nperseg - nperseg / 2),
        2 * (starts[k] + nperseg - starts[k + 1]) <= nperseg,
        nperseg <= 2 * (starts[k] + nperseg - starts[k + 1]) + 1,
{
    let step = spec_step(nperseg);
    assert(starts[k] == k * step);
    assert(starts[k + 1] == (k + 1) * step);
    assert((k + 1) * step == k * step + step) by (nonlinear_arith);
}

/// The samples after the end of the last segment are fewer than one step,
/// so no stretch of the signal long enough to start another segment is left out.
pub proof fn lemma_tail_shorter_than_step(n: nat, nperseg: nat, starts: Seq<usize>)
    requires
        is_segment_schedule(n, nperseg, starts),
        starts.len() > 0,
    ensures
        n < starts[starts.len() - 1] + nperseg + spec_step(nperseg),
{
    let step = spec_step(nperseg);
    let len = starts.len();
    assert(starts[len - 1] == (len - 1) * step);
    assert(len * step == (len - 1) * step + step) by (nonlinear_arith);
}

/// Sum of the weights of the first `m` bins of a one-sided spectrum of `nfreq` bins.
pub open spec fn spec_weight_sum(m: nat, nfreq: nat) -> nat
    decreases m,
{
    if m == 0 {
        0
    } else {
        spec_weight_sum((m - 1) as nat, nfreq) + spec_bin_weight((m - 1) as nat, nfreq)
    }
}

proof fn lemma_weight_sum_prefix(m: nat, nfreq: nat)
    requires
        1 <= m < nfreq,
    ensures
        spec_weight_sum(m, nfreq) == 2 * m - 1,
    decreases m,
{
    if m > 1 {
        lemma_weight_sum_prefix((m - 1) as nat, nfreq);
    } else {
        assert(spec_weight_sum(0, nfreq) == 0);
    }
}

/// For an even segment length the bin weights of the one-sided spectrum add
/// up to the segment length: every bin of the two-sided spectrum is counted
/// exactly once.
pub proof fn lemma_weights_count_every_bin(nperseg: nat)
    requires
        nperseg >= 2,
        nperseg % 2 == 0,
    ensures
        spec_weight_sum(spec_nfreq(nperseg), spec_nfreq(nperseg)) == nperseg,
{
    let nfreq = spec_nfreq(nperseg);
    lemma_weight_sum_prefix((nfreq - 1) as nat, nfreq);
}

} // verus!
