use spar_heave_pitch::plotting::{phase_sample_indices, PHASE_STRIDE};

#[test]
fn empty_series_draws_nothing() {
    assert!(phase_sample_indices(0).is_empty());
}

#[test]
fn every_fourth_sample_is_drawn() {
    assert_eq!(PHASE_STRIDE, 4);
    assert_eq!(phase_sample_indices(1), vec![0]);
    assert_eq!(phase_sample_indices(4), vec![0]);
    assert_eq!(phase_sample_indices(5), vec![0, 4]);
    assert_eq!(phase_sample_indices(9), vec![0, 4, 8]);
}

#[test]
fn reference_run_draws_a_quarter_of_the_samples() {
    let idx = phase_sample_indices(17600);
    assert_eq!(idx.len(), 4400);
    assert_eq!(idx[4399], 17596);
    let idx = phase_sample_indices(17601);
    assert_eq!(idx.len(), 4401);
    assert_eq!(*idx.last().unwrap(), 17600);
}
