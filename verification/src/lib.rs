//! A schema-driven binary serialization codec.
//!
//! Values form a dynamically typed tree (scalars, strings, blobs, maps and
//! homogeneous sequences); a schema maps field names to small integer indices
//! and declared types, and groups fields into named protocols. The encoder
//! turns a value tree into a compact tagged byte stream and the decoder turns
//! such a stream back into the value tree, skipping fields whose index the
//! schema does not know.

pub mod buffer;
pub mod error;
pub mod config;
pub mod value;
pub mod decode;
pub mod encode;
pub mod laws;
pub mod wire;

pub use buffer::Buffer;
pub use value::{get_name_by_type, get_type_by_name, get_value_type, get_vec_elem_type, Value};
