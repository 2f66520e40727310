//! A bidirectional conversion library between typed values and a generic
//! JSON value tree.
//!
//! Every supported shape (integers, `bool`, `String`, sequences, string-keyed
//! mappings, optionals, boxed values, and tuples) implements the two
//! capabilities [`codec::ToJson`] and [`codec::FromJson`], and the
//! implementations compose through generic parameters: a sequence of a
//! mapping of a tuple of optionals works because each layer delegates to the
//! layer below.

pub mod codec;
pub mod containers;
pub mod ints;
pub mod laws;
pub mod number;
pub mod scalars;
pub mod string_map;
pub mod tuples;
pub mod value;

pub use codec::{FromJson, JsonRoundTrip, ToJson};
pub use string_map::StringMap;
pub use value::{Json, JsonNumber};
