//! Verified core of the Magic Context cache store and transform pass.

pub mod config;
pub mod digest;
pub mod json;
pub mod keys;
pub mod like;
pub mod meta;
pub mod paths;
pub mod rows;
pub mod sessions;
pub mod store;
pub mod text;
pub mod transform;
pub mod wire;
