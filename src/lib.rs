//! The core of a structure-aware fuzzer: mutators that generate and mutate
//! typed values reversibly while keeping track of their complexity, the
//! combinators that build mutators from mutators, the pools that pick which
//! inputs are worth keeping, and a fixed-size bit set.

pub mod bitset;
pub mod box_mutator;
pub mod failure_pool;
pub mod integer;
pub mod map_mutator;
pub mod mutator;
pub mod option_mutator;
pub mod pool;
pub mod random;
pub mod recursive;
pub mod serializer;
pub mod unique_values_pool;
