//! The macro-name test as the runtime's implementation file exports it.
pub use crate::helpers::is_homun_macro;
