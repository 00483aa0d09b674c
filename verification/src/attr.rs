//! Attribute parsing for items, variants and fields.

pub mod default;
pub mod field;
pub mod incomparable;
pub mod item;
pub mod skip;
pub mod variant;
pub mod zeroize_fqs;
pub mod generic;
