//! Cascading stylesheet evaluation for geographic features.
//!
//! Given an ordered list of style rules and a feature (a way with tags and a
//! closed/open flag) at a zoom level, this crate resolves the final rendering
//! style: colors, opacities, stroke width, dash pattern, line join/cap and
//! draw order.  Floating-point values are carried as IEEE 754 bit patterns
//! (`u64`) so that every rule of the cascade is stated and proved exactly.

pub mod cascade;
pub mod feature;
pub mod float_bits;
pub mod laws;
pub mod layers;
pub mod matcher;
pub mod model;
pub mod order;
pub mod propmap;
pub mod style;
pub mod styler;
