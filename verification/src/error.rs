//! Errors of the pricers.
use vstd::prelude::*;

verus! {

/// Why a pricing call failed.
#[derive(Debug)]
pub enum PricerError {
    /// An input was out of range; the text says which.
    InvalidInput(String),
    /// An iterative solver did not converge within its iteration budget.
    ConvergenceFailure,
    /// A computation left the range in which it is meaningful.
    NumericalInstability,
}

/// The text that describes an error to a user.
pub open spec fn error_message(e: PricerError) -> Seq<char> {
    match e {
        PricerError::InvalidInput(detail) => "Invalid input: "@ + detail@,
        PricerError::ConvergenceFailure =>
            "Convergence failure: solver did not converge within max iterations"@,
        PricerError::NumericalInstability => "Numerical instability encountered"@,
    }
}

/// The message of an invalid input is one fixed prefix followed by the
/// whole detail, unchanged, for every detail.
pub proof fn lemma_invalid_input_message_keeps_detail(d1: String, d2: String)
    ensures
        error_message(PricerError::InvalidInput(d1)).len() == error_message(
            PricerError::InvalidInput(d2),
        ).len() - d2@.len() + d1@.len(),
        error_message(PricerError::InvalidInput(d1)).subrange(
            error_message(PricerError::InvalidInput(d1)).len() - d1@.len(),
            error_message(PricerError::InvalidInput(d1)).len() as int,
        ) == d1@,
        error_message(PricerError::InvalidInput(d1)).subrange(
            0,
            error_message(PricerError::InvalidInput(d1)).len() - d1@.len(),
        ) == error_message(PricerError::InvalidInput(d2)).subrange(
            0,
            error_message(PricerError::InvalidInput(d2)).len() - d2@.len(),
        ),
{
    let p = "Invalid input: "@;
    assert((p + d1@).subrange((p + d1@).len() - d1@.len(), (p + d1@).len() as int) =~= d1@);
    assert((p + d1@).subrange(0, (p + d1@).len() - d1@.len()) =~= p);
    assert((p + d2@).subrange(0, (p + d2@).len() - d2@.len()) =~= p);
}

impl PricerError {
    /// The text that describes the error to a user.
    pub fn message(&self) -> (m: String)
        ensures
            m@ == error_message(*self),
    {
        match self {
            PricerError::InvalidInput(detail) => {
                let mut m = String::from_str("Invalid input: ");
                m.append(detail.as_str());
                m
            },
            PricerError::ConvergenceFailure => String::from_str(
                "Convergence failure: solver did not converge within max iterations",
            ),
            PricerError::NumericalInstability => String::from_str(
                "Numerical instability encountered",
            ),
        }
    }
}

} // verus!
