//! Pricing and swap routing for a lending protocol: a price oracle that walks
//! chains of route assets, and a swap engine that validates multi-hop routes
//! and settles swap proceeds in two phases.

pub mod artifacts;
pub mod astroport;
pub mod decimal;
pub mod error;
pub mod market;
pub mod osmosis;
pub mod price_source;
pub mod registry;
pub mod route;
pub mod swapper;
pub mod types;
