//! The non-numeric rule of SVI calibration: how many market points a fit
//! needs.
use vstd::prelude::*;

use crate::error::PricerError;

verus! {

/// The fewest market points that can pin down the five SVI parameters.
pub const SVI_MIN_POINTS: usize = 5;

/// Accepts a calibration over `count` market points, or says why not: five
/// parameters need at least five points.
pub fn check_svi_point_count(count: usize) -> (r: Result<(), PricerError>)
    ensures
        count >= SVI_MIN_POINTS ==> r is Ok,
        count < SVI_MIN_POINTS ==> (r matches Err(PricerError::InvalidInput(m))
            && m@ == "Need at least 5 points to fit 5 parameters"@),
{
    if count < SVI_MIN_POINTS {
        return Err(
            PricerError::InvalidInput(String::from_str("Need at least 5 points to fit 5 parameters")),
        );
    }
    Ok(())
}

} // verus!
