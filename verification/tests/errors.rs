use rust_options::error::PricerError;
use rust_options::svi::{check_svi_point_count, SVI_MIN_POINTS};

#[test]
fn invalid_input_message() {
    let e = PricerError::InvalidInput("Volatility must be positive".to_string());
    assert_eq!(e.message(), "Invalid input: Volatility must be positive");
}

#[test]
fn convergence_failure_message() {
    assert_eq!(
        PricerError::ConvergenceFailure.message(),
        "Convergence failure: solver did not converge within max iterations"
    );
}

#[test]
fn numerical_instability_message() {
    assert_eq!(
        PricerError::NumericalInstability.message(),
        "Numerical instability encountered"
    );
}

#[test]
fn svi_needs_five_points() {
    assert_eq!(SVI_MIN_POINTS, 5);
    assert!(check_svi_point_count(5).is_ok());
    assert!(check_svi_point_count(100).is_ok());
    for n in 0..5 {
        match check_svi_point_count(n) {
            Err(PricerError::InvalidInput(m)) => {
                assert_eq!(m, "Need at least 5 points to fit 5 parameters")
            }
            other => panic!("unexpected {:?}", other),
        }
    }
}
