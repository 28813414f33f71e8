//! Converse bank: cash and transfer rates of currency pairs.
pub use crate::source::BaseConfig as Config;
use crate::decimal::Dec;
use crate::source::{rate_of, rates_view, Currency as ModCurrency, Rate, RateType, RateView};
use vstd::prelude::*;

verus! {

#[derive(Debug)]
pub struct Response {
    pub non_cash: Vec<Item>,
    pub cash: Vec<Item>,
}

#[derive(Debug)]
pub struct Item {
    pub buy: Dec,
    pub sell: Dec,
    pub iso2: ModCurrency,
    pub currency: Currency,
}

#[derive(Debug)]
pub struct Currency {
    pub iso: ModCurrency,
    pub use_for_rates: i32,
}

/// The items marked for use, as rates of `currency.iso` in `iso2`.
pub open spec fn spec_list(list: Seq<Item>, rt: RateType) -> Seq<RateView> {
    list.filter(|v: Item| v.currency.use_for_rates != 0).map_values(
        |v: Item| rate_of(v.currency.iso@, v.iso2@, rt, Some(v.buy), Some(v.sell)),
    )
}

/// Transfer rates, then cash rates.
pub open spec fn spec_parse(resp: Response) -> Seq<RateView> {
    spec_list(resp.non_cash@, RateType::NoCash) + spec_list(resp.cash@, RateType::Cash)
}

fn push_list(out: &mut Vec<Rate>, list: &Vec<Item>, rt: RateType)
    ensures
        rates_view(final(out)@) == rates_view(old(out)@) + spec_list(list@, rt),
{
    let mut i: usize = 0;
    while i < list.len()
        invariant
            i <= list@.len(),
            rates_view(out@) == rates_view(old(out)@) + spec_list(list@.subrange(0, i as int), rt),
        decreases list@.len() - i,
    {
        let ghost before = rates_view(out@);
        assert(list@.subrange(0, i + 1).drop_last() =~= list@.subrange(0, i as int));
        reveal_with_fuel(Seq::filter, 1);
        let v = &list[i];
        if v.currency.use_for_rates != 0 {
            let r = Rate {
                from: v.currency.iso.clone(),
                to: v.iso2.clone(),
                rate_type: rt,
                buy: Some(v.buy),
                sell: Some(v.sell),
            };
            out.push(r);
            assert(rates_view(out@) =~= before.push(r@));
        }
        i = i + 1;
    }
    assert(list@.subrange(0, list@.len() as int) =~= list@);
}

/// The rates of a response.
pub fn parse(resp: &Response) -> (r: Vec<Rate>)
    ensures
        rates_view(r@) == spec_parse(*resp),
{
    let mut results: Vec<Rate> = Vec::new();
    assert(rates_view(results@) =~= Seq::<RateView>::empty());
    push_list(&mut results, &resp.non_cash, RateType::NoCash);
    push_list(&mut results, &resp.cash, RateType::Cash);
    results
}

} // verus!
