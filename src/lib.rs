//! Carves a payload out of a binary blob by searching for a start signature
//! and a partially known end signature, with every search proved against a
//! mathematical model of the bytes.
pub mod signature;
pub mod search;
pub mod extract;
pub mod laws;
