//! Ardshinbank: cash and transfer rates against the dram.
pub use crate::source::BaseConfig as Config;
use crate::decimal::Dec;
use crate::source::{rate_of, rates_view, Currency as ModCurrency, Rate, RateType, RateView};
use vstd::prelude::*;

verus! {

#[derive(Debug)]
pub struct Response {
    pub data: Data,
}

#[derive(Debug)]
pub struct Data {
    pub currencies: Currencies,
}

#[derive(Debug)]
pub struct Currencies {
    pub cash: Vec<Currency>,
    pub no_cash: Vec<Currency>,
}

#[derive(Debug)]
pub struct Currency {
    pub curr_type: ModCurrency,
    pub buy: Dec,
    pub sell: Dec,
}

pub open spec fn spec_list(list: Seq<Currency>, rt: RateType) -> Seq<RateView> {
    list.map_values(|v: Currency| rate_of(v.curr_type@, "AMD"@, rt, Some(v.buy), Some(v.sell)))
}

/// Transfer rates, then cash rates, against the dram.
pub open spec fn spec_parse(resp: Response) -> Seq<RateView> {
    spec_list(resp.data.currencies.no_cash@, RateType::NoCash) + spec_list(resp.data.currencies.cash@, RateType::Cash)
}

fn push_list(out: &mut Vec<Rate>, list: &Vec<Currency>, rt: RateType)
    ensures
        rates_view(final(out)@) == rates_view(old(out)@) + spec_list(list@, rt),
{
    let mut i: usize = 0;
    while i < list.len()
        invariant
            i <= list@.len(),
            rates_view(out@) == rates_view(old(out)@) + spec_list(list@.subrange(0, i as int), rt),
        decreases list@.len() - i,
    {
        let ghost before = rates_view(out@);
        let v = &list[i];
        let r = Rate {
            from: v.curr_type.clone(),
            to: ModCurrency::default(),
            rate_type: rt,
            buy: Some(v.buy),
            sell: Some(v.sell),
        };
        out.push(r);
        assert(rates_view(out@) =~= before.push(r@));
        assert(spec_list(list@.subrange(0, i + 1), rt) =~= spec_list(list@.subrange(0, i as int), rt).push(r@));
        i = i + 1;
    }
    assert(list@.subrange(0, list@.len() as int) =~= list@);
}

/// The rates of a response.
pub fn parse(resp: &Response) -> (r: Vec<Rate>)
    ensures
        rates_view(r@) == spec_parse(*resp),
{
    let mut results: Vec<Rate> = Vec::new();
    assert(rates_view(results@) =~= Seq::<RateView>::empty());
    push_list(&mut results, &resp.data.currencies.no_cash, RateType::NoCash);
    push_list(&mut results, &resp.data.currencies.cash, RateType::Cash);
    results
}

} // verus!
