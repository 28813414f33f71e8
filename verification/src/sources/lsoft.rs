//! Banks on the L-Soft platform: the request and the tariff fields.
pub use crate::source::lsoft::request;
pub use crate::source::lsoft::{Trf30, Trf31};
