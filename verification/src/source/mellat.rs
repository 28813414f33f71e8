//! Mellat bank: transfer and cash rates of each currency against the dram.
pub use crate::source::BaseConfig as Config;
use crate::decimal::Dec;
use crate::source::{rate_of, rates_view, Currency, Rate, RateType, RateView};
use vstd::prelude::*;

verus! {

#[derive(Debug)]
pub struct Response {
    pub result: Result,
}

#[derive(Debug)]
pub struct Data {
    pub buy: Dec,
    pub sell: Dec,
    pub currency: Currency,
    pub buy_cash: Dec,
    pub sell_cash: Dec,
}

#[derive(Debug)]
pub struct Result {
    pub data: Vec<Data>,
}

/// The transfer rate, then the cash rate, of one currency.
pub open spec fn spec_item(d: Data) -> Seq<RateView> {
    seq![
        rate_of(d.currency@, "AMD"@, RateType::NoCash, Some(d.buy), Some(d.sell)),
        rate_of(d.currency@, "AMD"@, RateType::Cash, Some(d.buy_cash), Some(d.sell_cash)),
    ]
}

pub open spec fn spec_items(items: Seq<Data>) -> Seq<RateView>
    decreases items.len(),
{
    if items.len() == 0 {
        Seq::empty()
    } else {
        spec_items(items.drop_last()) + spec_item(items.last())
    }
}

/// The rates of a response: two for each currency, in their order.
pub open spec fn spec_parse(resp: Response) -> Seq<RateView> {
    spec_items(resp.result.data@)
}

/// The rates of a response.
pub fn parse(resp: &Response) -> (r: Vec<Rate>)
    ensures
        rates_view(r@) == spec_parse(*resp),
{
    let mut rates: Vec<Rate> = Vec::new();
    let items = &resp.result.data;
    let mut i: usize = 0;
    assert(rates_view(rates@) =~= Seq::<RateView>::empty());
    while i < items.len()
        invariant
            i <= items@.len(),
            rates_view(rates@) == spec_items(items@.subrange(0, i as int)),
        decreases items@.len() - i,
    {
        let ghost before = rates_view(rates@);
        assert(items@.subrange(0, i + 1).drop_last() =~= items@.subrange(0, i as int));
        let d = &items[i];
        let a = Rate {
            from: d.currency.clone(),
            to: Currency::default(),
            rate_type: RateType::NoCash,
            buy: Some(d.buy),
            sell: Some(d.sell),
        };
        let b = Rate {
            from: d.currency.clone(),
            to: Currency::default(),
            rate_type: RateType::Cash,
            buy: Some(d.buy_cash),
            sell: Some(d.sell_cash),
        };
        rates.push(a);
        rates.push(b);
        assert(rates_view(rates@) =~= before + spec_item(*d));
        i = i + 1;
    }
    assert(items@.subrange(0, items@.len() as int) =~= items@);
    rates
}

} // verus!
