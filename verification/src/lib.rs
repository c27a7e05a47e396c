//! Speculative aggregator state machine for a parallel transaction executor.
//!
//! An aggregator is a bounded 128-bit unsigned counter shared by many
//! concurrently executing transactions. A transaction records additions and
//! subtractions as a signed delta against an unmaterialized base value, and
//! keeps just enough history (four scalars) to decide later whether the
//! recorded outcomes stay valid once the real base value is known.

pub mod aggregator_extension;
pub mod bounded_math;
pub mod delta_math;
pub mod errors;
pub mod ordered;
pub mod replay;
pub mod resolver;
pub mod types;

pub use resolver::aggregator_v1_id_for_test;
pub use resolver::aggregator_v1_state_key_for_test;
pub use resolver::FakeAggregatorView;
