//! The errors that evaluation produces.
pub use crate::dval::Error;
