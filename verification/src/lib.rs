//! Verified core of an equity-options pricing toolkit: the xorshift64
//! generator that drives the Monte Carlo engine, the plain data types of the
//! pricer, and the non-numeric decisions of the pricing, market-data and web
//! layers.
pub mod error;
pub mod market;
pub mod parse;
pub mod rng;
pub mod svi;
pub mod text;
pub mod types;
pub mod vol;
pub mod web;

pub use error::PricerError;
pub use rng::Xorshift64;
pub use types::{ExerciseStyle, MonteCarloConfig, OptionType};
