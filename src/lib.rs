//! A registry of lending-protocol adapters that picks the best deposit and
//! borrow rates among them and splits a protocol fee off transferred amounts.

pub mod adapter;
pub mod address;
pub mod aggregator;
pub mod rates;
pub mod uint;

pub use adapter::{AggregatorAdapter, ConcreteAdapter};
pub use address::Address;
pub use aggregator::{DefaultParams, LendingAggregator, LendingAggregatorParams};
pub use uint::U256;
