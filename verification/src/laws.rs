//! Laws of the library: what holds of all inputs, over several operations.

pub mod keeping;
pub mod lasting;
pub mod making;
pub mod reading;
pub mod reusing;
pub mod sending;
pub mod storing;
pub mod validating;
