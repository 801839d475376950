//! Shape of the volatility model's input.
use vstd::prelude::*;

verus! {

/// Days in a market window.
pub const WINDOW_SIZE: usize = 30;

/// Features per day of a market window.
pub const NUM_FEATURES: usize = 5;

/// Whether normalisation statistics exported for `window_size` days of
/// `num_features` features match the shape the model is compiled for.
pub fn stats_shape_matches(window_size: usize, num_features: usize) -> (ok: bool)
    ensures
        ok == (window_size == WINDOW_SIZE && num_features == NUM_FEATURES),
{
    window_size == WINDOW_SIZE && num_features == NUM_FEATURES
}

} // verus!
