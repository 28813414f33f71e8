//! IDBank: transfer and cash rates of each currency against the dram.
pub use crate::source::BaseConfig as Config;
use crate::decimal::Dec;
use crate::source::{rate_of, rates_view, Currency, Rate, RateType, RateView};
use vstd::prelude::*;

verus! {

#[derive(Debug)]
pub struct Response {
    pub result: Result,
}

#[derive(Debug)]
pub struct Result {
    pub currency_rate: Vec<CurrencyRate>,
}

#[derive(Debug)]
pub struct CurrencyRate {
    pub buy: Option<Dec>,
    pub cards_buy: String,
    pub cards_sell: String,
    pub csh_buy: Option<Dec>,
    pub csh_buy_trf: Option<Dec>,
    pub csh_sell: Option<Dec>,
    pub csh_sell_trf: Option<Dec>,
    pub iso_txt: Currency,
    pub sell: Option<Dec>,
}

/// The transfer rate, then the cash rate, of one currency.
pub open spec fn spec_item(c: CurrencyRate) -> Seq<RateView> {
    seq![
        rate_of(c.iso_txt@, "AMD"@, RateType::NoCash, c.buy, c.sell),
        rate_of(c.iso_txt@, "AMD"@, RateType::Cash, c.csh_buy, c.csh_sell),
    ]
}

pub open spec fn spec_items(items: Seq<CurrencyRate>) -> Seq<RateView>
    decreases items.len(),
{
    if items.len() == 0 {
        Seq::empty()
    } else {
        spec_items(items.drop_last()) + spec_item(items.last())
    }
}

/// The rates of a response: two for each currency, in their order.
pub open spec fn spec_parse(resp: Response) -> Seq<RateView> {
    spec_items(resp.result.currency_rate@)
}

/// The rates of a response.
pub fn parse(resp: &Response) -> (r: Vec<Rate>)
    ensures
        rates_view(r@) == spec_parse(*resp),
{
    let mut rates: Vec<Rate> = Vec::new();
    let items = &resp.result.currency_rate;
    let mut i: usize = 0;
    assert(rates_view(rates@) =~= Seq::<RateView>::empty());
    while i < items.len()
        invariant
            i <= items@.len(),
            rates_view(rates@) == spec_items(items@.subrange(0, i as int)),
        decreases items@.len() - i,
    {
        let ghost before = rates_view(rates@);
        assert(items@.subrange(0, i + 1).drop_last() =~= items@.subrange(0, i as int));
        let c = &items[i];
        let a = Rate {
            from: c.iso_txt.clone(),
            to: Currency::default(),
            rate_type: RateType::NoCash,
            buy: c.buy,
            sell: c.sell,
        };
        let b = Rate {
            from: c.iso_txt.clone(),
            to: Currency::default(),
            rate_type: RateType::Cash,
            buy: c.csh_buy,
            sell: c.csh_sell,
        };
        rates.push(a);
        rates.push(b);
        assert(rates_view(rates@) =~= before + spec_item(*c));
        i = i + 1;
    }
    assert(items@.subrange(0, items@.len() as int) =~= items@);
    rates
}

} // verus!
