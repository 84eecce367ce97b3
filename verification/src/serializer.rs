//! The JSON encoding of the internal form: every node is an object that
//! carries its kind under `type`.

pub mod json;
pub mod serializer;
pub mod deserializer;
pub mod round_trip;
pub mod spans;
