use quorum_credit::common::ContractError;
use quorum_credit::economic_simulation::{
    integer_sqrt, monte_carlo_inputs_supported, run_monte_carlo_simulation,
    simulate_end_values, simulate_single_period, stress_test_inputs_supported,
    stress_test_scenarios, SimpleRng, SimulationParams,
};

fn lcg(s: u64) -> u64 {
    s.wrapping_mul(6364136223846793005).wrapping_add(1442695040888963407)
}

#[test]
fn test_monte_carlo_simulation() {
    let params = SimulationParams {
        default_rate_bps: 500,
        interest_rate_bps: 1000,
        recovery_rate_bps: 5000,
        simulation_count: 1000,
        portfolio_value: 1_000_000,
    };

    let result = run_monte_carlo_simulation(&params, 12345).unwrap();

    assert!(result.mean_value > 0);
    assert!(result.min_value <= result.mean_value);
    assert!(result.mean_value <= result.max_value);
    assert!(result.loss_probability <= 10_000);
}

#[test]
fn test_stress_test_scenarios() {
    let params = SimulationParams {
        default_rate_bps: 300,
        interest_rate_bps: 800,
        recovery_rate_bps: 6000,
        simulation_count: 500,
        portfolio_value: 500_000,
    };

    let results = stress_test_scenarios(&params, 54321).unwrap();
    assert!(results.len() == 4);
}

#[test]
fn rng_follows_the_linear_congruential_recurrence() {
    let seed = 42u64;
    let mut rng = SimpleRng::new(seed);
    let s1 = lcg(lcg(seed));
    assert_eq!(rng.next_u32(), (s1 >> 32) as u32);
    let s2 = lcg(s1);
    assert_eq!(rng.next_f64(), s2 >> 32);
}

#[test]
fn rng_is_deterministic() {
    let mut a = SimpleRng::new(7);
    let mut b = SimpleRng::new(7);
    for _ in 0..10 {
        assert_eq!(a.next_u32(), b.next_u32());
    }
}

#[test]
fn integer_sqrt_exact_values() {
    assert_eq!(integer_sqrt(0), 0);
    assert_eq!(integer_sqrt(1), 1);
    assert_eq!(integer_sqrt(2), 1);
    assert_eq!(integer_sqrt(15), 3);
    assert_eq!(integer_sqrt(16), 4);
    assert_eq!(integer_sqrt(1_000_000_000_000), 1_000_000);
    assert_eq!(integer_sqrt(999_999_999_999), 999_999);
}

#[test]
fn period_without_defaults_collects_all_interest() {
    let params = SimulationParams {
        default_rate_bps: 0,
        interest_rate_bps: 1000,
        recovery_rate_bps: 5000,
        simulation_count: 1,
        portfolio_value: 1_000_000,
    };
    let mut rng = SimpleRng::new(1);
    let r = simulate_single_period(&params, &mut rng);
    assert_eq!(r.defaults_count, 0);
    assert_eq!(r.interest_collected, 100_000);
    assert_eq!(r.end_value, 1_100_000);
    assert_eq!(r.default_losses, 0);
}

#[test]
fn period_where_every_loan_defaults_loses_the_unrecovered_part() {
    let params = SimulationParams {
        default_rate_bps: 10_000,
        interest_rate_bps: 1000,
        recovery_rate_bps: 5000,
        simulation_count: 1,
        portfolio_value: 1_000_000,
    };
    let mut rng = SimpleRng::new(1);
    let r = simulate_single_period(&params, &mut rng);
    assert_eq!(r.defaults_count, 100);
    assert_eq!(r.default_losses, 500_000);
    assert_eq!(r.end_value, 500_000);
    assert_eq!(r.interest_collected, 0);
}

#[test]
fn a_full_default_rate_defaults_every_loan() {
    let params = SimulationParams {
        default_rate_bps: 10_000,
        interest_rate_bps: 1000,
        recovery_rate_bps: 0,
        simulation_count: 1,
        portfolio_value: 1_000_000,
    };
    let mut rng = SimpleRng::new(1);
    let r = simulate_single_period(&params, &mut rng);
    assert_eq!(r.defaults_count, 100);
    assert_eq!(r.default_losses, 1_000_000);
    assert_eq!(r.interest_collected, 0);
    assert_eq!(r.end_value, 0);
}

#[test]
fn the_default_rate_is_a_share_of_loans() {
    // over many periods, a 20% default rate defaults about a fifth of the loans
    let params = SimulationParams {
        default_rate_bps: 2_000,
        interest_rate_bps: 1000,
        recovery_rate_bps: 0,
        simulation_count: 1,
        portfolio_value: 1_000_000,
    };
    let mut rng = SimpleRng::new(2024);
    let mut defaults = 0u32;
    for _ in 0..100 {
        defaults += simulate_single_period(&params, &mut rng).defaults_count;
    }
    assert!(defaults > 1_500 && defaults < 2_500, "{}", defaults);
}

#[test]
fn zero_simulations_are_refused() {
    let params = SimulationParams {
        default_rate_bps: 500,
        interest_rate_bps: 1000,
        recovery_rate_bps: 5000,
        simulation_count: 0,
        portfolio_value: 1_000_000,
    };
    assert!(matches!(
        run_monte_carlo_simulation(&params, 1),
        Err(ContractError::InvalidInput)
    ));
    assert!(matches!(
        stress_test_scenarios(&params, 1),
        Err(ContractError::InvalidInput)
    ));
}

#[test]
fn metrics_of_a_riskless_portfolio() {
    let params = SimulationParams {
        default_rate_bps: 0,
        interest_rate_bps: 1000,
        recovery_rate_bps: 5000,
        simulation_count: 40,
        portfolio_value: 1_000_000,
    };
    let r = run_monte_carlo_simulation(&params, 3).unwrap();
    assert_eq!(r.mean_value, 1_100_000);
    assert_eq!(r.min_value, 1_100_000);
    assert_eq!(r.max_value, 1_100_000);
    assert_eq!(r.var_95, 1_100_000);
    assert_eq!(r.cvar_95, 1_100_000);
    assert_eq!(r.std_dev, 0);
    assert_eq!(r.loss_probability, 0);
    assert_eq!(r.max_loss, 100_000);
    assert_eq!(r.simulation_count, 40);
}

#[test]
fn metrics_of_a_portfolio_that_always_loses() {
    let params = SimulationParams {
        default_rate_bps: 10_000,
        interest_rate_bps: 1000,
        recovery_rate_bps: 5000,
        simulation_count: 20,
        portfolio_value: 1_000_000,
    };
    let r = run_monte_carlo_simulation(&params, 3).unwrap();
    assert_eq!(r.mean_value, 500_000);
    assert_eq!(r.loss_probability, 10_000);
    assert_eq!(r.max_loss, -500_000);
}

#[test]
fn ranked_metrics_lie_between_minimum_and_maximum() {
    let params = SimulationParams {
        default_rate_bps: 5_000,
        interest_rate_bps: 1000,
        recovery_rate_bps: 2000,
        simulation_count: 200,
        portfolio_value: 1_000_000,
    };
    let r = run_monte_carlo_simulation(&params, 99).unwrap();
    assert!(r.min_value <= r.var_95 && r.var_95 <= r.max_value);
    assert!(r.min_value <= r.cvar_95 && r.cvar_95 <= r.var_95);
    assert!(r.min_value <= r.mean_value && r.mean_value <= r.max_value);
    assert!(r.std_dev >= 0);
    assert!(r.min_value < r.max_value);
    let values = simulate_end_values(&params, 99);
    assert_eq!(values.len(), 200);
    assert_eq!(*values.iter().min().unwrap(), r.min_value);
    assert_eq!(*values.iter().max().unwrap(), r.max_value);
}

#[test]
fn ordinary_inputs_are_supported() {
    let params = SimulationParams {
        default_rate_bps: 300,
        interest_rate_bps: 800,
        recovery_rate_bps: 6000,
        simulation_count: 50,
        portfolio_value: 500_000,
    };
    assert!(monte_carlo_inputs_supported(&params, 5));
    assert!(stress_test_inputs_supported(&params, 5));
}
