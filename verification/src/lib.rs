//! Strategies that generate values as sets of independent bits, and the value
//! tree that shrinks such a value by clearing one bit at a time.
//!
//! These strategies suit integers used as flag words or masks, where the
//! simplest relative of `64` is `0` (one bit cleared) and not `63` (one bit
//! cleared and six others set).
//!
//! - [`bit_set_like`] holds the trait that a container of bits implements.
//! - [`strategy`] and [`sampled`] hold the two strategies.
//! - [`value_tree`] holds the value tree that both produce, and the laws of
//!   shrinking.
//! - [`test_runner`] holds the random source.
//! - One module for each container holds its implementation of the trait and
//!   shorthands for its strategies: the integer types, and [`bitset`] for the
//!   growable `BitSet`.

pub mod bit_set_like;
pub mod bitset;
pub mod i16;
pub mod i32;
pub mod i64;
pub mod i8;
pub mod isize;
pub mod sampled;
pub mod strategy;
pub mod test_runner;
pub mod u16;
pub mod u32;
pub mod u64;
pub mod u8;
pub mod usize;
pub mod value_tree;

pub use bit_set_like::BitSetLike;
pub use sampled::SampledBitSetStrategy;
pub use strategy::BitSetStrategy;
pub use test_runner::Reason;
pub use test_runner::TestRunner;
pub use value_tree::BitSetValueTree;
