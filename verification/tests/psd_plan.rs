use spar_heave_pitch::psd::{bin_weight, welch_plan};

#[test]
fn reference_run_has_sixteen_segments() {
    // 17600 post-transient samples, 2048-sample segments.
    let plan = welch_plan(17600, 2048);
    assert_eq!(plan.nperseg, 2048);
    assert_eq!(plan.noverlap, 1024);
    assert_eq!(plan.step, 1024);
    assert_eq!(plan.nfreq, 1025);
    assert_eq!(plan.starts.len(), 16);
    for (k, &s) in plan.starts.iter().enumerate() {
        assert_eq!(s, k * 1024);
    }
    assert_eq!(*plan.starts.last().unwrap(), 15360);
}

#[test]
fn short_signal_has_no_segment() {
    let plan = welch_plan(100, 2048);
    assert!(plan.starts.is_empty());
    assert_eq!(plan.nfreq, 1025);
}

#[test]
fn empty_signal_has_no_segment() {
    let plan = welch_plan(0, 8);
    assert!(plan.starts.is_empty());
}

#[test]
fn signal_of_one_segment() {
    let plan = welch_plan(2048, 2048);
    assert_eq!(plan.starts, vec![0]);
}

#[test]
fn odd_segment_length_rounds_overlap_down() {
    let plan = welch_plan(10, 5);
    assert_eq!(plan.noverlap, 2);
    assert_eq!(plan.step, 3);
    assert_eq!(plan.nfreq, 3);
    assert_eq!(plan.starts, vec![0, 3]);
}

#[test]
fn segment_of_one_sample() {
    let plan = welch_plan(3, 1);
    assert_eq!(plan.noverlap, 0);
    assert_eq!(plan.step, 1);
    assert_eq!(plan.nfreq, 1);
    assert_eq!(plan.starts, vec![0, 1, 2]);
}

#[test]
fn consecutive_segments_overlap_by_half() {
    let plan = welch_plan(17600, 2048);
    for w in plan.starts.windows(2) {
        assert_eq!(w[0] + 2048 - w[1], 1024);
    }
}

#[test]
fn segments_stay_inside_and_tail_is_short() {
    let n = 17600;
    let plan = welch_plan(n, 2048);
    for &s in plan.starts.iter() {
        assert!(s + 2048 <= n);
    }
    let last = *plan.starts.last().unwrap();
    assert!(n < last + 2048 + plan.step);
}

#[test]
fn interior_bins_are_doubled() {
    assert_eq!(bin_weight(0, 1025), 1);
    assert_eq!(bin_weight(1, 1025), 2);
    assert_eq!(bin_weight(512, 1025), 2);
    assert_eq!(bin_weight(1023, 1025), 2);
    assert_eq!(bin_weight(1024, 1025), 1);
    assert_eq!(bin_weight(0, 1), 1);
}

#[test]
fn weights_count_every_bin_of_even_segment() {
    let nfreq = 2048 / 2 + 1;
    let total: u32 = (0..nfreq).map(|i| bin_weight(i, nfreq)).sum();
    assert_eq!(total, 2048);
}
