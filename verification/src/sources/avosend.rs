//! Avosend: the form the rate is asked with.
pub mod request;
