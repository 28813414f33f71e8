//! The SOAP envelope the latest rates are asked with.
use vstd::prelude::*;

verus! {

#[derive(Debug)]
pub struct Request {
    pub xmlns_xsi: String,
    pub xmlns_xsd: String,
    pub xmlns_soap12: String,
    pub soap12_body: Soap12Body,
}

#[derive(Debug)]
pub struct Soap12Body {
    pub exchange_rates_latest: ExchangeRatesLatest,
}

#[derive(Debug)]
pub struct ExchangeRatesLatest {
    pub xmlns: String,
}

} // verus!
