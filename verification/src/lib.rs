//! Normalisation of public market-data streams into a single event model.
//!
//! The crate models subscriptions to exchange market-data channels, builds
//! the correlation metadata needed to route inbound frames, reconstructs
//! local order books from snapshots and incremental deltas with sequence-gap
//! detection, and emits normalised events with a strictly increasing
//! per-subscription sequence number.

pub mod book;
pub mod exchange;
pub mod model;
pub mod numeric;
pub mod registry;
pub mod transformer;
