//! Banks on the ArmSoft platform: rates given per a number of units.
pub use crate::source::BaseConfig as Config;
use crate::decimal::{spec_checked_div, Dec};
use crate::source::{
    fold_rates, lemma_fold_rates_none, lemma_fold_rates_step, rate_of, rates_view, Currency, Rate, RateType,
    RateView,
};
use vstd::prelude::*;

verus! {

#[derive(Debug)]
pub struct Response {
    pub array_of_exchange_rate: Vec<ExchangeRate>,
}

#[derive(Debug)]
pub struct ExchangeRate {
    pub currency: Currency,
    pub purchase: Dec,
    pub sale: Dec,
    pub rate_for: Dec,
}

/// The rate of one unit of a currency: both rates divided by the number of
/// units they are given for; nothing where a division fails.
pub open spec fn spec_item(v: ExchangeRate, rate_type: RateType) -> Option<Seq<RateView>> {
    match (spec_checked_div(v.purchase, v.rate_for), spec_checked_div(v.sale, v.rate_for)) {
        (Some(b), Some(s)) => Some(seq![rate_of(v.currency@, "AMD"@, rate_type, Some(b), Some(s))]),
        _ => None,
    }
}

/// The rates of a response, nothing where a division fails.
pub open spec fn spec_collect(resp: Response, rate_type: RateType) -> Option<Seq<RateView>> {
    fold_rates(resp.array_of_exchange_rate@, |v: ExchangeRate| spec_item(v, rate_type))
}

/// The rates of a response of the given rate type; `None` where a division
/// fails.
pub fn try_collect_rates(resp: &Response, rate_type: RateType) -> (r: Option<Vec<Rate>>)
    ensures
        r is None <==> spec_collect(*resp, rate_type) is None,
        r matches Some(v) ==> spec_collect(*resp, rate_type) == Some(rates_view(v@)),
{
    let ghost f = |v: ExchangeRate| spec_item(v, rate_type);
    let items = &resp.array_of_exchange_rate;
    let n = items.len();
    let mut rates: Vec<Rate> = Vec::new();
    let mut i: usize = 0;
    assert(rates_view(rates@) =~= Seq::<RateView>::empty());
    assert(items@.subrange(0, 0) =~= Seq::<ExchangeRate>::empty());
    while i < n
        invariant
            n == items@.len(),
            items@ == resp.array_of_exchange_rate@,
            i <= n,
            f == (|v: ExchangeRate| spec_item(v, rate_type)),
            fold_rates(items@.subrange(0, i as int), f) == Some(rates_view(rates@)),
        decreases n - i,
    {
        proof {
            lemma_fold_rates_step(items@, f, i as int);
        }
        let v = &items[i];
        match (v.purchase.checked_div(&v.rate_for), v.sale.checked_div(&v.rate_for)) {
            (Some(b), Some(s)) => {
                let ghost before = rates_view(rates@);
                let x = Rate { from: v.currency.clone(), to: Currency::default(), rate_type, buy: Some(b), sell: Some(s) };
                rates.push(x);
                assert(rates_view(rates@) =~= before + seq![x@]);
            },
            _ => {
                proof {
                    lemma_fold_rates_none(items@, f, i + 1);
                }
                return None;
            },
        }
        i = i + 1;
    }
    assert(items@.subrange(0, n as int) =~= items@);
    Some(rates)
}

/// The rates of a response of the given rate type.
pub fn collect_rates(resp: &Response, rate_type: RateType) -> (r: Vec<Rate>)
    requires
        spec_collect(*resp, rate_type) is Some,
    ensures
        spec_collect(*resp, rate_type) == Some(rates_view(r@)),
{
    try_collect_rates(resp, rate_type).unwrap()
}

} // verus!
