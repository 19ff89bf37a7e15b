//! The protocol layer.

pub mod entries;
pub mod hub;
pub mod json;
pub mod message;
pub mod msgpack;
pub mod negotiate;
pub mod text;
pub mod value;
