//! The Central Bank of Armenia: the SOAP request for the latest rates.
use crate::text::to_owned;
use vstd::prelude::*;

pub mod request;

verus! {

/// The request for the latest rates: the SOAP 1.2 envelope with the schema
/// namespaces and an `ExchangeRatesLatest` call in the bank's namespace.
pub fn soap_request() -> (r: request::Request)
    ensures
        r.xmlns_xsi@ == "http://www.w3.org/2001/XMLSchema-instance"@,
        r.xmlns_xsd@ == "http://www.w3.org/2001/XMLSchema"@,
        r.xmlns_soap12@ == "http://www.w3.org/2003/05/soap-envelope"@,
        r.soap12_body.exchange_rates_latest.xmlns@ == "http://www.cba.am/"@,
{
    request::Request {
        xmlns_xsi: to_owned("http://www.w3.org/2001/XMLSchema-instance"),
        xmlns_xsd: to_owned("http://www.w3.org/2001/XMLSchema"),
        xmlns_soap12: to_owned("http://www.w3.org/2003/05/soap-envelope"),
        soap12_body: request::Soap12Body {
            exchange_rates_latest: request::ExchangeRatesLatest { xmlns: to_owned("http://www.cba.am/") },
        },
    }
}

} // verus!
