//! ArmSwissBank: rates whose currency may name the number of units they are
//! given for, as in "JPY 100".
pub use crate::source::BaseConfig as Config;
use crate::decimal::{spec_checked_div, spec_parse_decimal, Dec};
use crate::source::{
    fold_rates, lemma_fold_rates_none, lemma_fold_rates_step, rate_of, rates_view, spec_currency_code, Currency,
    Rate, RateType, RateView,
};
use crate::text::{spec_split_whitespace, split_whitespace, strings_view};
use vstd::prelude::*;

verus! {

#[derive(Debug)]
pub struct Response {
    pub lmasbrate: Vec<LmasbRate>,
}

#[derive(Debug)]
pub struct LmasbRate {
    pub iso: String,
    pub bid: Dec,
    pub offer: Dec,
    pub bid_cash: Dec,
    pub offer_cash: Dec,
}

/// The number of units a rate is given for: the second word of its name,
/// one where there is none, nothing where the word is not a decimal.
pub open spec fn spec_amount(words: Seq<Seq<char>>) -> Option<Dec> {
    if words.len() >= 2 {
        spec_parse_decimal(words[1])
    } else {
        Some(Dec::spec_new(1, 0))
    }
}

/// The rates of one entry: none where its name has no word or an amount that
/// is not a decimal; else the transfer and cash rates of one unit; nothing
/// where a division fails.
pub open spec fn spec_item(rate: LmasbRate) -> Option<Seq<RateView>> {
    let words = spec_split_whitespace(rate.iso@);
    if words.len() == 0 {
        Some(Seq::empty())
    } else {
        match spec_amount(words) {
            None => Some(Seq::empty()),
            Some(a) => {
                let from = spec_currency_code(words[0]);
                match (
                    spec_checked_div(rate.bid, a),
                    spec_checked_div(rate.offer, a),
                    spec_checked_div(rate.bid_cash, a),
                    spec_checked_div(rate.offer_cash, a),
                ) {
                    (Some(b), Some(s), Some(bc), Some(sc)) => Some(
                        seq![
                            rate_of(from, "AMD"@, RateType::NoCash, Some(b), Some(s)),
                            rate_of(from, "AMD"@, RateType::Cash, Some(bc), Some(sc)),
                        ],
                    ),
                    _ => None,
                }
            },
        }
    }
}

/// The rates of a response, nothing where a division fails.
pub open spec fn spec_parse(resp: Response) -> Option<Seq<RateView>> {
    fold_rates(resp.lmasbrate@, |r: LmasbRate| spec_item(r))
}

fn amount_of(words: &Vec<String>) -> (r: Option<Dec>)
    ensures
        r == spec_amount(strings_view(words@)),
{
    if words.len() >= 2 {
        match Dec::from_str(words[1].as_str()) {
            Ok(d) => Some(d),
            Err(_) => None,
        }
    } else {
        Some(Dec::one())
    }
}

/// The rates of a response; `None` where a division fails.
pub fn try_parse(resp: &Response) -> (r: Option<Vec<Rate>>)
    ensures
        r is None <==> spec_parse(*resp) is None,
        r matches Some(v) ==> spec_parse(*resp) == Some(rates_view(v@)),
{
    let ghost f = |r: LmasbRate| spec_item(r);
    let items = &resp.lmasbrate;
    let n = items.len();
    let mut rates: Vec<Rate> = Vec::new();
    let mut i: usize = 0;
    assert(rates_view(rates@) =~= Seq::<RateView>::empty());
    assert(items@.subrange(0, 0) =~= Seq::<LmasbRate>::empty());
    while i < n
        invariant
            n == items@.len(),
            items@ == resp.lmasbrate@,
            i <= n,
            f == (|r: LmasbRate| spec_item(r)),
            fold_rates(items@.subrange(0, i as int), f) == Some(rates_view(rates@)),
        decreases n - i,
    {
        proof {
            lemma_fold_rates_step(items@, f, i as int);
        }
        let rate = &items[i];
        let words = split_whitespace(rate.iso.as_str());
        if words.len() == 0 {
            assert(rates_view(rates@) + Seq::<RateView>::empty() =~= rates_view(rates@));
            i = i + 1;
            continue;
        }
        let amount = match amount_of(&words) {
            Some(a) => a,
            None => {
                assert(rates_view(rates@) + Seq::<RateView>::empty() =~= rates_view(rates@));
                i = i + 1;
                continue;
            },
        };
        let from = Currency::new(words[0].as_str());
        match (
            rate.bid.checked_div(&amount),
            rate.offer.checked_div(&amount),
            rate.bid_cash.checked_div(&amount),
            rate.offer_cash.checked_div(&amount),
        ) {
            (Some(b), Some(s), Some(bc), Some(sc)) => {
                let ghost before = rates_view(rates@);
                let x = Rate { from: from.clone(), to: Currency::default(), rate_type: RateType::NoCash, buy: Some(b), sell: Some(s) };
                let y = Rate { from, to: Currency::default(), rate_type: RateType::Cash, buy: Some(bc), sell: Some(sc) };
                rates.push(x);
                rates.push(y);
                assert(rates_view(rates@) =~= before + seq![x@, y@]);
            },
            _ => {
                proof {
                    lemma_fold_rates_none(items@, f, i + 1);
                }
                return None;
            },
        }
        i = i + 1;
    }
    assert(items@.subrange(0, n as int) =~= items@);
    Some(rates)
}

/// The rates of a response.
pub fn parse(resp: &Response) -> (r: Vec<Rate>)
    requires
        spec_parse(*resp) is Some,
    ensures
        spec_parse(*resp) == Some(rates_view(r@)),
{
    try_parse(resp).unwrap()
}

} // verus!
