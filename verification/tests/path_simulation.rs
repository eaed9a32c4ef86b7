use option_pricing_lib::binary64::Binary64;
use option_pricing_lib::errors::OptionPricingError;
use option_pricing_lib::paths::{PathSet, PathSimulator, SimulatedPath};

fn enc(x: f64) -> Binary64 {
    Binary64::from_bits(x.to_bits())
}

fn dec(x: Binary64) -> f64 {
    f64::from_bits(x.to_bits())
}

/// A finished path through the given spots, one time unit apart.
fn path_through(spots: &[f64]) -> SimulatedPath {
    let mut sim = PathSimulator::start(enc(spots[0]), enc(0.04), spots.len() - 1).unwrap();
    for (k, &s) in spots.iter().enumerate().skip(1) {
        sim = sim.advance(enc(0.04), enc(k as f64), enc(s));
    }
    sim.finish().unwrap()
}

#[test]
fn a_path_of_no_steps_is_refused() {
    match PathSimulator::start(enc(100.0), enc(0.04), 0) {
        Err(OptionPricingError::InvalidInput(detail)) => {
            assert_eq!(detail, "Number of steps must be greater than zero.")
        }
        Err(other) => panic!("expected invalid input, got {other:?}"),
        Ok(_) => panic!("expected invalid input, got a simulator"),
    }
}

#[test]
fn a_path_starts_at_time_zero_at_the_spot_price() {
    let sim = PathSimulator::start(enc(100.0), enc(0.04), 3).unwrap();
    assert_eq!(sim.steps_taken(), 0);
    assert!(!sim.is_complete());
    assert_eq!(dec(sim.spot()), 100.0);
    assert_eq!(dec(sim.variance()), 0.04);
    let sim = sim.advance(enc(0.05), enc(0.5), enc(101.0));
    let sim = sim.advance(enc(0.05), enc(1.0), enc(102.0));
    let sim = sim.advance(enc(0.05), enc(1.5), enc(103.0));
    let path = sim.finish().unwrap();
    let first = path.sample(0).unwrap();
    assert_eq!(first.0.to_bits(), 0);
    assert_eq!(dec(first.1), 100.0);
}

#[test]
fn the_variance_is_floored_at_zero_after_every_step() {
    let proposals = [0.05, -0.01, 0.0, -0.0, f64::NAN, -1.0e-300, 1.0e-300, f64::NEG_INFINITY, 0.2];
    let mut sim = PathSimulator::start(enc(100.0), enc(0.04), proposals.len()).unwrap();
    for (k, &raw) in proposals.iter().enumerate() {
        sim = sim.advance(enc(raw), enc(k as f64 + 1.0), enc(100.0));
        let kept = dec(sim.variance());
        assert!(!kept.is_nan());
        assert!(kept >= 0.0, "variance {kept} after proposing {raw}");
        assert_eq!(kept, raw.max(0.0));
        assert_eq!(sim.variance().to_bits(), enc(raw).floor_at_zero().to_bits());
    }
    assert!(sim.is_complete());
}

#[test]
fn the_initial_variance_is_kept_as_given_until_the_first_step() {
    let sim = PathSimulator::start(enc(100.0), enc(-0.5), 2).unwrap();
    assert_eq!(dec(sim.variance()), -0.5);
    let sim = sim.advance(enc(-0.5), enc(1.0), enc(100.0));
    assert_eq!(dec(sim.variance()), 0.0);
}

#[test]
fn every_step_records_its_sample() {
    let mut sim = PathSimulator::start(enc(50.0), enc(0.04), 4).unwrap();
    for k in 1..=4 {
        assert_eq!(sim.steps_taken(), k - 1);
        sim = sim.advance(enc(0.04), enc(k as f64 * 0.25), enc(50.0 + k as f64));
        assert_eq!(dec(sim.spot()), 50.0 + k as f64);
    }
    assert_eq!(sim.steps_taken(), 4);
    let path = sim.finish().unwrap();
    assert_eq!(path.num_steps(), 4);
    for k in 0..=4 {
        let (t, s) = path.sample(k).unwrap();
        assert_eq!(dec(t), k as f64 * 0.25);
        assert_eq!(dec(s), 50.0 + k as f64);
    }
    assert!(path.sample(5).is_none());
    assert_eq!(dec(path.terminal_spot()), 54.0);
}

#[test]
fn a_complete_path_takes_no_further_step() {
    let sim = PathSimulator::start(enc(100.0), enc(0.04), 1).unwrap();
    let sim = sim.advance(enc(0.09), enc(1.0), enc(110.0));
    assert!(sim.is_complete());
    let sim = sim.advance(enc(0.5), enc(2.0), enc(120.0));
    assert!(sim.is_complete());
    assert_eq!(sim.steps_taken(), 1);
    assert_eq!(dec(sim.variance()), 0.09);
    assert_eq!(dec(sim.spot()), 110.0);
    let path = sim.finish().unwrap();
    assert_eq!(path.num_steps(), 1);
    assert_eq!(dec(path.terminal_spot()), 110.0);
}

#[test]
fn an_unfinished_path_is_not_handed_out() {
    let sim = PathSimulator::start(enc(100.0), enc(0.04), 2).unwrap();
    let sim = sim.advance(enc(0.04), enc(0.5), enc(101.0));
    assert!(!sim.is_complete());
    assert!(sim.finish().is_none());
}

#[test]
fn a_set_holds_paths_of_one_length() {
    let paths = vec![path_through(&[100.0, 101.0, 102.0]), path_through(&[100.0, 99.0, 98.0])];
    let set = PathSet::from_paths(paths, 2).unwrap();
    assert_eq!(set.len(), 2);
    assert_eq!(set.num_steps(), 2);
}

#[test]
fn a_set_refuses_a_path_of_another_length() {
    let paths = vec![path_through(&[100.0, 101.0, 102.0]), path_through(&[100.0, 99.0])];
    assert!(PathSet::from_paths(paths, 2).is_none());
    let paths = vec![path_through(&[100.0, 101.0, 102.0])];
    assert!(PathSet::from_paths(paths, 3).is_none());
}

#[test]
fn a_set_of_no_steps_is_refused() {
    assert!(PathSet::from_paths(Vec::new(), 0).is_none());
    assert!(PathSet::from_paths(Vec::new(), 1).is_some());
}

#[test]
fn spots_are_read_across_the_paths() {
    let paths = vec![
        path_through(&[100.0, 101.0, 102.0]),
        path_through(&[100.0, 99.0, 98.0]),
        path_through(&[100.0, 100.5, 97.0]),
    ];
    let set = PathSet::from_paths(paths, 2).unwrap();
    let at = |k: usize| -> Vec<f64> { set.spots_at(k).unwrap().into_iter().map(dec).collect() };
    assert_eq!(at(0), vec![100.0, 100.0, 100.0]);
    assert_eq!(at(1), vec![101.0, 99.0, 100.5]);
    assert_eq!(at(2), vec![102.0, 98.0, 97.0]);
    assert!(set.spots_at(3).is_none());
    let ends: Vec<f64> = set.terminal_spots().into_iter().map(dec).collect();
    assert_eq!(ends, vec![102.0, 98.0, 97.0]);
}

#[test]
fn the_order_of_the_paths_is_the_order_of_their_spots() {
    let forward = PathSet::from_paths(
        vec![path_through(&[100.0, 101.0]), path_through(&[100.0, 99.0]), path_through(&[100.0, 95.0])],
        1,
    )
    .unwrap();
    let backward = PathSet::from_paths(
        vec![path_through(&[100.0, 95.0]), path_through(&[100.0, 99.0]), path_through(&[100.0, 101.0])],
        1,
    )
    .unwrap();
    let mut a: Vec<f64> = forward.terminal_spots().into_iter().map(dec).collect();
    let b: Vec<f64> = backward.terminal_spots().into_iter().map(dec).collect();
    a.reverse();
    assert_eq!(a, b);
}
