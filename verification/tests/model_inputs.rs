use option_pricing_lib::binary64::Binary64;
use option_pricing_lib::data::interest_rates::InterestRateCurve;
use option_pricing_lib::errors::OptionPricingError;
use option_pricing_lib::models::binomial::BinomialModel;
use option_pricing_lib::models::black_scholes::BlackScholesModel;
use option_pricing_lib::models::heston::{HestonModel, Valuation};
use option_pricing_lib::models::intrinsic_value::IntrinsicValue;
use option_pricing_lib::regression::RegressionMethod;
use option_pricing_lib::OptionType;

fn enc(x: f64) -> Binary64 {
    Binary64::from_bits(x.to_bits())
}

fn dec(x: Binary64) -> f64 {
    f64::from_bits(x.to_bits())
}

fn flat_curve() -> InterestRateCurve {
    InterestRateCurve::new(vec![enc(0.0), enc(1.0)], vec![enc(0.05), enc(0.05)])
}

fn heston(num_steps: usize, curve: InterestRateCurve, is_american: bool) -> HestonModel {
    HestonModel {
        option_type: OptionType::Put,
        spot_price: enc(100.0),
        strike_price: enc(100.0),
        time_to_expiry: enc(1.0),
        initial_variance: enc(0.04),
        risk_free_rate_curve: curve,
        kappa: enc(2.0),
        theta: enc(0.04),
        sigma: enc(0.1),
        rho: enc(-0.7),
        is_american,
        regression_method: RegressionMethod::LeastSquaresMonteCarlo,
        num_paths: 10000,
        num_steps,
    }
}

fn binomial(steps: usize) -> BinomialModel {
    BinomialModel {
        option_type: OptionType::Put,
        spot_price: enc(100.0),
        strike_price: enc(100.0),
        time_to_expiry: enc(1.0),
        volatility: enc(0.2),
        risk_free_rate: enc(0.05),
        steps,
        is_american: true,
    }
}

fn black_scholes(time_to_expiry: f64) -> BlackScholesModel {
    BlackScholesModel {
        option_type: OptionType::Call,
        spot_price: enc(100.0),
        strike_price: enc(100.0),
        time_to_expiry: enc(time_to_expiry),
        volatility: enc(0.2),
        risk_free_rate: enc(0.05),
    }
}

fn intrinsic(option_type: OptionType, spot: f64, strike: f64) -> f64 {
    let model = IntrinsicValue { option_type, spot_price: enc(spot), strike_price: enc(strike) };
    let (a, b) = model.exercise_operands();
    dec(model.price_from_margin(enc(dec(a) - dec(b))).unwrap())
}

#[test]
fn intrinsic_value_of_a_call_in_the_money() {
    assert_eq!(intrinsic(OptionType::Call, 100.0, 90.0), 10.0);
}

#[test]
fn intrinsic_value_of_a_call_out_of_the_money() {
    assert_eq!(intrinsic(OptionType::Call, 80.0, 90.0), 0.0);
}

#[test]
fn intrinsic_value_of_a_put() {
    assert_eq!(intrinsic(OptionType::Put, 80.0, 90.0), 10.0);
    assert_eq!(intrinsic(OptionType::Put, 100.0, 90.0), 0.0);
    assert_eq!(intrinsic(OptionType::Put, 90.0, 90.0), 0.0);
}

#[test]
fn a_binomial_tree_of_no_steps_is_invalid_input() {
    match binomial(0).validate() {
        Err(OptionPricingError::InvalidInput(detail)) => {
            assert_eq!(detail, "Number of steps must be greater than zero.")
        }
        other => panic!("expected invalid input, got {other:?}"),
    }
}

#[test]
fn a_binomial_tree_with_steps_is_accepted() {
    assert!(binomial(1).validate().is_ok());
    assert!(binomial(500).validate().is_ok());
    assert!(binomial(usize::MAX).validate().is_ok());
}

#[test]
fn an_american_node_is_worth_the_larger_of_holding_and_exercising() {
    let american = binomial(10);
    assert_eq!(dec(american.node_value(enc(4.0), enc(6.0))), 6.0);
    assert_eq!(dec(american.node_value(enc(4.0), enc(3.0))), 4.0);
    assert_eq!(dec(american.node_value(enc(4.0), enc(-3.0))), 4.0);
    assert_eq!(dec(american.node_value(enc(4.0), enc(4.0))), 4.0);
    let mut european = binomial(10);
    european.is_american = false;
    assert_eq!(dec(european.node_value(enc(4.0), enc(6.0))), 4.0);
    assert_eq!(dec(european.node_value(enc(4.0), enc(3.0))), 4.0);
}

#[test]
fn a_leaf_is_worth_what_exercise_pays() {
    let model = binomial(10);
    assert_eq!(dec(model.leaf_value(enc(6.0))), 6.0);
    assert_eq!(dec(model.leaf_value(enc(-6.0))), 0.0);
    let (a, b) = model.exercise_operands(enc(93.0));
    assert_eq!((dec(a), dec(b)), (100.0, 93.0));
}

#[test]
fn black_scholes_needs_a_positive_time_to_expiry() {
    for t in [0.0, -0.0, -1.0, f64::NEG_INFINITY] {
        match black_scholes(t).validate() {
            Err(OptionPricingError::InvalidInput(detail)) => {
                assert_eq!(detail, "Time to expiry must be positive.")
            }
            other => panic!("expected invalid input for {t}, got {other:?}"),
        }
    }
    for t in [1.0, 1.0e-300, f64::INFINITY, f64::NAN] {
        assert!(black_scholes(t).validate().is_ok(), "{t}");
    }
}

#[test]
fn black_scholes_turns_its_terms_for_a_put() {
    let call = black_scholes(1.0);
    let mut put = black_scholes(1.0);
    put.option_type = OptionType::Put;
    assert_eq!(dec(call.distribution_argument(enc(0.35))), 0.35);
    assert_eq!(dec(put.distribution_argument(enc(0.35))), -0.35);
    let (a, b) = call.price_operands(enc(63.0), enc(53.0));
    assert_eq!((dec(a), dec(b)), (63.0, 53.0));
    let (a, b) = put.price_operands(enc(63.0), enc(53.0));
    assert_eq!((dec(a), dec(b)), (53.0, 63.0));
}

#[test]
fn a_simulation_of_no_steps_is_invalid_input() {
    let model = heston(0, flat_curve(), true);
    match model.validate() {
        Err(OptionPricingError::InvalidInput(detail)) => {
            assert_eq!(detail, "Number of steps must be greater than zero.")
        }
        other => panic!("expected invalid input, got {other:?}"),
    }
    assert!(matches!(model.simulator(), Err(OptionPricingError::InvalidInput(_))));
}

#[test]
fn a_malformed_rate_curve_is_invalid_input() {
    for curve in [
        InterestRateCurve::new(vec![], vec![]),
        InterestRateCurve::new(vec![enc(0.0), enc(1.0)], vec![enc(0.05)]),
        InterestRateCurve::new(vec![enc(0.0)], vec![enc(0.05), enc(0.05)]),
    ] {
        match heston(50, curve, true).validate() {
            Err(OptionPricingError::InvalidInput(detail)) => {
                assert_eq!(detail, "Interest rate curve data is invalid.")
            }
            other => panic!("expected invalid input, got {other:?}"),
        }
    }
}

#[test]
fn a_usable_model_is_accepted() {
    let model = heston(50, flat_curve(), true);
    assert!(model.validate().is_ok());
    assert!(model.is_well_posed());
    let sim = model.simulator().unwrap();
    assert_eq!(dec(sim.spot()), 100.0);
    assert_eq!(dec(sim.variance()), 0.04);
    assert_eq!(sim.steps_taken(), 0);
    let (a, b) = model.exercise_operands(enc(93.0));
    assert_eq!((dec(a), dec(b)), (100.0, 93.0));
}

#[test]
fn the_valuation_follows_the_american_flag() {
    assert!(matches!(
        heston(50, flat_curve(), true).valuation(),
        Valuation::American(RegressionMethod::LeastSquaresMonteCarlo)
    ));
    assert!(matches!(heston(50, flat_curve(), false).valuation(), Valuation::European));
    let mut forest = heston(50, flat_curve(), true);
    forest.regression_method = RegressionMethod::RandomForest;
    assert!(matches!(forest.valuation(), Valuation::American(RegressionMethod::RandomForest)));
}

#[test]
fn a_model_outside_its_domain_is_told_apart() {
    let good = heston(50, flat_curve(), true);
    assert!(good.is_well_posed());
    let mut m = heston(50, flat_curve(), true);
    m.spot_price = enc(0.0);
    assert!(!m.is_well_posed());
    let mut m = heston(50, flat_curve(), true);
    m.strike_price = enc(-1.0);
    assert!(!m.is_well_posed());
    let mut m = heston(50, flat_curve(), true);
    m.time_to_expiry = enc(0.0);
    assert!(!m.is_well_posed());
    let mut m = heston(50, flat_curve(), true);
    m.initial_variance = enc(-0.01);
    assert!(!m.is_well_posed());
    let mut m = heston(50, flat_curve(), true);
    m.initial_variance = enc(0.0);
    assert!(m.is_well_posed());
    for rho in [-1.0, 1.0, 0.0] {
        let mut m = heston(50, flat_curve(), true);
        m.rho = enc(rho);
        assert!(m.is_well_posed());
    }
    for rho in [-1.0000000000000002, 1.0000000000000002, f64::NAN] {
        let mut m = heston(50, flat_curve(), true);
        m.rho = enc(rho);
        assert!(!m.is_well_posed());
    }
}

#[test]
fn messages_name_the_kind_of_failure() {
    assert_eq!(
        OptionPricingError::InvalidInput("Number of steps must be greater than zero.".to_string())
            .message(),
        "Invalid input parameter: Number of steps must be greater than zero."
    );
    assert_eq!(
        OptionPricingError::ComputationError("overflow".to_string()).message(),
        "Computation error: overflow"
    );
    assert_eq!(
        OptionPricingError::RegressionError("LSM regression failed: singular".to_string()).message(),
        "Regression error: LSM regression failed: singular"
    );
    assert_eq!(
        OptionPricingError::InterpolationError("Failed to interpolate rate.".to_string()).message(),
        "Interpolation error: Failed to interpolate rate."
    );
    assert_eq!(OptionPricingError::InvalidInput(String::new()).message(), "Invalid input parameter: ");
}
