//! AEB: rates of each currency against the bank's main currency.
pub use crate::source::BaseConfig as Config;
use crate::decimal::Dec;
use crate::source::{rate_of, rates_view, Currency, Rate as ModRate, RateType, RateView};
use vstd::prelude::*;

verus! {

#[derive(Debug)]
pub struct Response {
    pub main_currency_code: Currency,
    pub rate_currency_settings: Vec<Item>,
}

#[derive(Debug)]
pub struct Item {
    pub currency_code: Currency,
    pub rates: Vec<Rate>,
}

#[derive(Debug)]
pub struct Rate {
    pub buy_rate: Option<Dec>,
    pub sell_rate: Option<Dec>,
    pub rate_type: RateType,
}

/// The transfer and cash rates of one currency, in their order.
pub open spec fn spec_item(item: Item, to: Seq<char>) -> Seq<RateView> {
    item.rates@.filter(|r: Rate| r.rate_type == RateType::NoCash || r.rate_type == RateType::Cash).map_values(
        |r: Rate| rate_of(item.currency_code@, to, r.rate_type, r.buy_rate, r.sell_rate),
    )
}

pub open spec fn spec_items(items: Seq<Item>, to: Seq<char>) -> Seq<RateView>
    decreases items.len(),
{
    if items.len() == 0 {
        Seq::empty()
    } else {
        spec_items(items.drop_last(), to) + spec_item(items.last(), to)
    }
}

/// The transfer and cash rates of every currency against the main currency.
pub open spec fn spec_parse(resp: Response) -> Seq<RateView> {
    spec_items(resp.rate_currency_settings@, resp.main_currency_code@)
}

fn push_item(out: &mut Vec<ModRate>, item: &Item, to: &Currency)
    ensures
        rates_view(final(out)@) == rates_view(old(out)@) + spec_item(*item, to@),
{
    let rates = &item.rates;
    let mut i: usize = 0;
    while i < rates.len()
        invariant
            i <= rates@.len(),
            rates_view(out@) == rates_view(old(out)@) + rates@.subrange(0, i as int).filter(
                |r: Rate| r.rate_type == RateType::NoCash || r.rate_type == RateType::Cash,
            ).map_values(|r: Rate| rate_of(item.currency_code@, to@, r.rate_type, r.buy_rate, r.sell_rate)),
        decreases rates@.len() - i,
    {
        let ghost before = rates_view(out@);
        assert(rates@.subrange(0, i + 1).drop_last() =~= rates@.subrange(0, i as int));
        reveal_with_fuel(Seq::filter, 1);
        let rate = &rates[i];
        if rate.rate_type == RateType::NoCash || rate.rate_type == RateType::Cash {
            let r = ModRate {
                from: item.currency_code.clone(),
                to: to.clone(),
                rate_type: rate.rate_type,
                buy: rate.buy_rate,
                sell: rate.sell_rate,
            };
            out.push(r);
            assert(rates_view(out@) =~= before.push(r@));
        }
        i = i + 1;
    }
    assert(rates@.subrange(0, rates@.len() as int) =~= rates@);
}

/// The rates of a response.
pub fn parse(resp: &Response) -> (r: Vec<ModRate>)
    ensures
        rates_view(r@) == spec_parse(*resp),
{
    let mut rates: Vec<ModRate> = Vec::new();
    let items = &resp.rate_currency_settings;
    let mut i: usize = 0;
    assert(rates_view(rates@) =~= Seq::<RateView>::empty());
    while i < items.len()
        invariant
            i <= items@.len(),
            rates_view(rates@) == spec_items(items@.subrange(0, i as int), resp.main_currency_code@),
        decreases items@.len() - i,
    {
        assert(items@.subrange(0, i + 1).drop_last() =~= items@.subrange(0, i as int));
        push_item(&mut rates, &items[i], &resp.main_currency_code);
        i = i + 1;
    }
    assert(items@.subrange(0, items@.len() as int) =~= items@);
    rates
}

} // verus!
