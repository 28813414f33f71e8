//! Banks on the L-Soft platform: transfer and cash rates against the dram.
use crate::decimal::Dec;
use crate::source::{rate_of, rates_view, BaseConfigTrait, Currency, Rate, RateType, RateView};
use crate::text::to_owned;
use vstd::prelude::*;

pub mod request;

verus! {

#[derive(Debug)]
pub struct Response {
    pub get_currency_list: GetCurrencyList,
}

#[derive(Debug)]
pub struct GetCurrencyList {
    pub currency_list: Vec<CurrencyList>,
}

#[derive(Debug)]
pub struct CurrencyList {
    pub external_id: Currency,
    pub sell: Option<Dec>,
    pub buy: Option<Dec>,
    pub trf30: Trf30,
    pub trf31: Trf31,
    pub csh_sell: Option<Dec>,
    pub csh_buy: Option<Dec>,
}

/// A tariff field of the answer that carries nothing the rates need.
#[derive(Debug)]
pub struct Trf30;

/// A tariff field of the answer that carries nothing the rates need.
#[derive(Debug)]
pub struct Trf31;

#[derive(Debug)]
pub struct Config {
    pub rates_url: String,
    pub enabled: bool,
    pub req: request::Request,
}

impl Clone for Config {
    fn clone(&self) -> (r: Self)
        ensures
            r == *self,
    {
        Config { rates_url: self.rates_url.clone(), enabled: self.enabled, req: self.req.clone() }
    }
}

impl BaseConfigTrait for Config {
    fn rates_url(&self) -> (r: String)
        ensures
            r@ == self.rates_url@,
    {
        self.rates_url.clone()
    }
}

/// A configuration that gives the request a bank is asked with.
pub trait LSoftRequest {
    fn req(&self) -> request::Request;
}

impl LSoftRequest for Config {
    fn req(&self) -> (r: request::Request)
        ensures
            r == self.req,
    {
        self.req.clone()
    }
}

/// The request sent for the currency list: the fixed fields of the mobile
/// client and the configured `id`.
pub open spec fn spec_request_body(req: request::Request, r: request::Request) -> bool {
    &&& r.client@ == "mobile"@
    &&& r.device@ == "android"@
    &&& r.handler@ == "aphena"@
    &&& r.lang@ == "1"@
    &&& r.operation@ == "getCurrencyList"@
    &&& r.accesstoken@ == Seq::<char>::empty()
    &&& r.id@ == req.id@
    &&& r.get_currency_list_parameters.currency@ == Seq::<char>::empty()
    &&& r.userid@ == Seq::<char>::empty()
}

/// The request sent for the currency list.
pub fn request_body(req: &request::Request) -> (r: request::Request)
    ensures
        spec_request_body(*req, r),
{
    request::Request {
        client: to_owned("mobile"),
        device: to_owned("android"),
        handler: to_owned("aphena"),
        lang: to_owned("1"),
        operation: to_owned("getCurrencyList"),
        accesstoken: String::new(),
        id: req.id.clone(),
        get_currency_list_parameters: request::GetCurrencyListParameters::default(),
        userid: String::new(),
    }
}

/// The transfer rate, then the cash rate, of one currency.
pub open spec fn spec_item(c: CurrencyList) -> Seq<RateView> {
    seq![
        rate_of(c.external_id@, "AMD"@, RateType::NoCash, c.buy, c.sell),
        rate_of(c.external_id@, "AMD"@, RateType::Cash, c.csh_buy, c.csh_sell),
    ]
}

pub open spec fn spec_items(items: Seq<CurrencyList>) -> Seq<RateView>
    decreases items.len(),
{
    if items.len() == 0 {
        Seq::empty()
    } else {
        spec_items(items.drop_last()) + spec_item(items.last())
    }
}

/// The rates of a response: two for each currency, in their order.
pub open spec fn spec_parse(resp: Response) -> Seq<RateView> {
    spec_items(resp.get_currency_list.currency_list@)
}

/// The rates of a response.
pub fn parse(resp: &Response) -> (r: Vec<Rate>)
    ensures
        rates_view(r@) == spec_parse(*resp),
{
    let mut rates: Vec<Rate> = Vec::new();
    let items = &resp.get_currency_list.currency_list;
    let mut i: usize = 0;
    assert(rates_view(rates@) =~= Seq::<RateView>::empty());
    while i < items.len()
        invariant
            i <= items@.len(),
            rates_view(rates@) == spec_items(items@.subrange(0, i as int)),
        decreases items@.len() - i,
    {
        let ghost before = rates_view(rates@);
        assert(items@.subrange(0, i + 1).drop_last() =~= items@.subrange(0, i as int));
        let c = &items[i];
        let a = Rate { from: c.external_id.clone(), to: Currency::default(), rate_type: RateType::NoCash, buy: c.buy, sell: c.sell };
        let b = Rate { from: c.external_id.clone(), to: Currency::default(), rate_type: RateType::Cash, buy: c.csh_buy, sell: c.csh_sell };
        rates.push(a);
        rates.push(b);
        assert(rates_view(rates@) =~= before + spec_item(*c));
        i = i + 1;
    }
    assert(items@.subrange(0, items@.len() as int) =~= items@);
    rates
}

} // verus!
