//! The per-transaction value model for aggregators: counter-like storage
//! cells that many transactions may touch concurrently. Instead of
//! serializing on the absolute value, a transaction applies signed deltas
//! against a start value that is still unknown, records which outcomes
//! succeeded and which failed in a compact history, and lets the commit
//! layer validate the whole run in constant time once the true base value
//! is revealed. Derived snapshot values and the materialization of the
//! final state into a change set round the model off.

pub mod aggregator_change_set;
pub mod aggregator_extension;
pub mod bounded_math;
pub mod delta_change_set;
pub mod delta_math;
pub mod resolver;

pub use resolver::aggregator_v1_id_for_test;
pub use resolver::AggregatorStore;
