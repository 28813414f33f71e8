//! How the fields of the sources' answers are read from their texts.
use crate::decimal::{spec_parse_decimal, Dec, ParseDecimalError};
use crate::source::{Currency, ParseError, RateType};
use vstd::prelude::*;

verus! {

/// The currency a text names.
pub fn currency(s: &str) -> (r: Currency)
    ensures
        r@ == crate::source::spec_currency_code(s@),
{
    Currency::new(s)
}

/// The rate type a text names.
pub fn rate_type(s: &str) -> (r: Result<RateType, ParseError>)
    ensures
        r == RateType::spec_from_str(s@),
{
    RateType::from_str(s)
}

/// No decimal for an empty text, else the decimal the text is; `Err` where it
/// is none.
pub fn empty_decimal(s: &str) -> (r: Result<Option<Dec>, ParseDecimalError>)
    ensures
        s@.len() == 0 ==> r == Result::<Option<Dec>, ParseDecimalError>::Ok(None),
        s@.len() > 0 ==> (r is Err <==> spec_parse_decimal(s@) is None),
        s@.len() > 0 ==> (r matches Ok(d) ==> d == spec_parse_decimal(s@)),
{
    if s.is_empty() {
        return Ok(None);
    }
    match Dec::from_str(s) {
        Ok(d) => Ok(Some(d)),
        Err(e) => Err(e),
    }
}

/// The decimal a text is; `Err` where it is none.
pub fn decimal(s: &str) -> (r: Result<Dec, ParseDecimalError>)
    ensures
        r is Err <==> spec_parse_decimal(s@) is None,
        r matches Ok(d) ==> spec_parse_decimal(s@) == Some(d),
{
    Dec::from_str(s)
}

} // verus!
