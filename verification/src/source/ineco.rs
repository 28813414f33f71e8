//! Inecobank: transfer and cash rates of each currency against the dram.
pub use crate::source::BaseConfig as Config;
use crate::decimal::Dec;
use crate::source::{rate_of, rates_view, Currency, Rate as ModRate, RateType, RateView};
use vstd::prelude::*;

verus! {

#[derive(Debug)]
pub struct Response {
    pub items: Vec<Item>,
}

#[derive(Debug)]
pub struct Item {
    pub code: Currency,
    pub cash: Rate,
    pub cashless: Rate,
}

#[derive(Debug)]
pub struct Rate {
    pub buy: Option<Dec>,
    pub sell: Option<Dec>,
}

/// The transfer rate, then the cash rate, of one item.
pub open spec fn spec_item(item: Item) -> Seq<RateView> {
    seq![
        rate_of(item.code@, "AMD"@, RateType::NoCash, item.cashless.buy, item.cashless.sell),
        rate_of(item.code@, "AMD"@, RateType::Cash, item.cash.buy, item.cash.sell),
    ]
}

pub open spec fn spec_items(items: Seq<Item>) -> Seq<RateView>
    decreases items.len(),
{
    if items.len() == 0 {
        Seq::empty()
    } else {
        spec_items(items.drop_last()) + spec_item(items.last())
    }
}

/// The rates of a response: two for each item, in the order of the items.
pub open spec fn spec_parse(resp: Response) -> Seq<RateView> {
    spec_items(resp.items@)
}

/// The rates of a response.
pub fn parse(resp: &Response) -> (r: Vec<ModRate>)
    ensures
        rates_view(r@) == spec_parse(*resp),
{
    let mut rates: Vec<ModRate> = Vec::new();
    let items = &resp.items;
    let mut i: usize = 0;
    assert(rates_view(rates@) =~= Seq::<RateView>::empty());
    while i < items.len()
        invariant
            i <= items@.len(),
            rates_view(rates@) == spec_items(items@.subrange(0, i as int)),
        decreases items@.len() - i,
    {
        let ghost before = rates_view(rates@);
        assert(items@.subrange(0, i + 1).drop_last() =~= items@.subrange(0, i as int));
        let item = &items[i];
        let a = ModRate {
            from: item.code.clone(),
            to: Currency::default(),
            rate_type: RateType::NoCash,
            buy: item.cashless.buy,
            sell: item.cashless.sell,
        };
        let b = ModRate {
            from: item.code.clone(),
            to: Currency::default(),
            rate_type: RateType::Cash,
            buy: item.cash.buy,
            sell: item.cash.sell,
        };
        rates.push(a);
        rates.push(b);
        assert(rates_view(rates@) =~= before + spec_item(*item));
        i = i + 1;
    }
    assert(items@.subrange(0, items@.len() as int) =~= items@);
    rates
}

} // verus!
