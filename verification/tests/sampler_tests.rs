use cotton::random::{roll_die, sample_weighted, SamplerError};

#[test]
fn sampling_follows_the_weights() {
    // A pool where the first value has a third of the weight: over
    // 10,000 draws its frequency stays within five percent of 1/3.
    let pool: Vec<(u64, u64)> = vec![(0, 1), (1, 2)];
    let draws = sample_weighted(&pool, 10_000).unwrap();
    assert_eq!(draws.len(), 10_000);
    let zeros = draws.iter().filter(|&&x| x == 0).count() as f64;
    let freq = zeros / 10_000.0;
    let expected = 1.0 / 3.0;
    assert!(
        (freq - expected).abs() <= expected * 0.05,
        "frequency {} strayed from {}",
        freq,
        expected
    );
}

#[test]
fn empty_pool_is_a_configuration_error() {
    let pool: Vec<(u64, u64)> = vec![];
    assert_eq!(sample_weighted(&pool, 5), Err(SamplerError::InvalidPool));
}

#[test]
fn all_zero_weights_are_a_configuration_error() {
    let pool: Vec<(u64, u64)> = vec![(7, 0), (8, 0)];
    assert_eq!(sample_weighted(&pool, 5), Err(SamplerError::InvalidPool));
}

#[test]
fn zero_weight_values_are_never_drawn() {
    let pool: Vec<(u64, u64)> = vec![(0, 0), (1, 5)];
    let draws = sample_weighted(&pool, 1_000).unwrap();
    assert!(draws.iter().all(|&x| x == 1));
}

#[test]
fn zero_draws_yield_an_empty_sample() {
    let pool: Vec<(u64, u64)> = vec![(3, 1)];
    assert_eq!(sample_weighted(&pool, 0).unwrap(), Vec::<u64>::new());
}

#[test]
fn dice_stay_on_their_faces() {
    for _ in 0..200 {
        let d = roll_die();
        assert!((1..=6).contains(&d));
    }
}
