//! Avosend: the rate of a rouble transfer to Armenia.
use crate::decimal::Dec;
use crate::source::{rate_of, rates_view, Currency, Rate, RateType, RateView};
use crate::text::{after_first, spec_after_first, spec_trim, str_trim, to_owned};
use vstd::prelude::*;

verus! {

#[derive(Debug)]
pub struct Response {
    pub convert_rate: Dec,
}

/// The form the rate is asked with.
#[derive(Debug)]
pub struct Request {
    pub country_code_from: String,
    pub country_id_from: u64,
    pub country_code_to: String,
    pub country_id_to: u64,
    pub currency_id_from: u64,
    pub currency_id_to: u64,
    pub summ_send: u64,
    pub direction: String,
}

impl Clone for Request {
    fn clone(&self) -> (r: Self)
        ensures
            r == *self,
    {
        Request {
            country_code_from: self.country_code_from.clone(),
            country_id_from: self.country_id_from,
            country_code_to: self.country_code_to.clone(),
            country_id_to: self.country_id_to,
            currency_id_from: self.currency_id_from,
            currency_id_to: self.currency_id_to,
            summ_send: self.summ_send,
            direction: self.direction.clone(),
        }
    }
}

#[derive(Debug)]
pub struct Config {
    pub rates_url: String,
    pub enabled: bool,
    pub req: Request,
}

impl Clone for Config {
    fn clone(&self) -> (r: Self)
        ensures
            r == *self,
    {
        Config { rates_url: self.rates_url.clone(), enabled: self.enabled, req: self.req.clone() }
    }
}

/// The tag that ends the script the answer starts with.
pub const CLOSE_SCRIPT_TAG: &'static str = "</script>";

/// The JSON text of an answer: what follows the first closing script tag
/// (the whole answer where there is none), trimmed.
pub open spec fn spec_json_text(resp: Seq<char>) -> Seq<char> {
    spec_trim(spec_after_first(resp, CLOSE_SCRIPT_TAG@))
}

/// The JSON text of an answer.
pub fn json_text(resp: &str) -> (r: String)
    ensures
        r@ == spec_json_text(resp@),
{
    let rest = after_first(resp, CLOSE_SCRIPT_TAG);
    to_owned(str_trim(rest.as_str()))
}

/// The transfer rate of roubles in dram, without a selling rate.
pub open spec fn spec_parse(resp: Response) -> Seq<RateView> {
    seq![rate_of("RUB"@, "AMD"@, RateType::NoCash, Some(resp.convert_rate), None)]
}

/// The rates of a response.
pub fn parse(resp: &Response) -> (r: Vec<Rate>)
    ensures
        rates_view(r@) == spec_parse(*resp),
{
    let v = vec![Rate {
        from: Currency::rub(),
        to: Currency::default(),
        rate_type: RateType::NoCash,
        buy: Some(resp.convert_rate),
        sell: None,
    }];
    assert(rates_view(v@) =~= spec_parse(*resp));
    v
}

} // verus!
