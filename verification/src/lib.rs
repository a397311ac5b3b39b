//! A price-oracle aggregator that sits in front of one upstream SEP-40 price
//! feed and re-exposes its prices rescaled to an advertised precision and never
//! older than a configured age.

pub mod candidates;
pub mod contract;
pub mod decimal;
pub mod errors;
pub mod host;
pub mod price_data;
pub mod types;
pub mod universe;
