//! Import-time processing of a skeletal-animation asset pair: a texture atlas
//! (plain-text region list) and a skeleton (flat bone list).
//!
//! All geometry is exact: pixel quantities are integers and normalized
//! texture coordinates are rationals, so every result is stated and proved
//! without rounding.
pub mod atlas;
pub mod bones;
pub mod error;
pub mod geometry;
pub mod import;
pub mod text;
pub mod uv;
