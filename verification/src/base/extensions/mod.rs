//! Small traits that extend what values offer.
pub mod try_as_ref;
