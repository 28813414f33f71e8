//! ACBA bank: cash and transfer rates against the dram, and cross rates.
pub use crate::source::BaseConfig as Config;
use crate::decimal::Dec;
use crate::source::{
    rate_of, rates_view, spec_currency_code, Currency, Rate as ModRate, RateType, RateView,
};
use crate::text::{spec_split_once, split_once_char};
use vstd::prelude::*;

verus! {

#[derive(Debug)]
pub struct Response {
    pub result: Result,
}

#[derive(Debug)]
pub struct Result {
    pub rates: Rates,
}

#[derive(Debug)]
pub struct Rates {
    pub cash: Vec<Rate>,
    pub non_cash: Vec<Rate>,
    pub cross: Vec<CrossRate>,
}

#[derive(Debug)]
pub struct Rate {
    pub buy: Dec,
    pub sell: Dec,
    pub currency: Currency,
}

#[derive(Debug)]
pub struct CrossRate {
    pub buy: Dec,
    pub sell: Dec,
    pub currency: String,
}

/// The rates of a list against the dram.
pub open spec fn spec_simple(rates: Seq<Rate>, rt: RateType) -> Seq<RateView> {
    rates.map_values(|v: Rate| rate_of(v.currency@, "AMD"@, rt, Some(v.buy), Some(v.sell)))
}

/// The cross rates whose name is two codes joined by "/".
pub open spec fn spec_cross(cross: Seq<CrossRate>) -> Seq<RateView>
    decreases cross.len(),
{
    if cross.len() == 0 {
        Seq::empty()
    } else {
        let prev = spec_cross(cross.drop_last());
        let c = cross.last();
        match spec_split_once(c.currency@, '/') {
            Some((a, b)) => prev.push(
                rate_of(spec_currency_code(a), spec_currency_code(b), RateType::NoCash, Some(c.buy), Some(c.sell)),
            ),
            None => prev,
        }
    }
}

/// Transfer rates, then cash rates, then the cross rates.
pub open spec fn spec_parse(resp: Response) -> Seq<RateView> {
    spec_simple(resp.result.rates.non_cash@, RateType::NoCash) + spec_simple(resp.result.rates.cash@, RateType::Cash)
        + spec_cross(resp.result.rates.cross@)
}

fn push_simple(out: &mut Vec<ModRate>, rates: &Vec<Rate>, rt: RateType)
    ensures
        rates_view(final(out)@) == rates_view(old(out)@) + spec_simple(rates@, rt),
{
    let mut i: usize = 0;
    while i < rates.len()
        invariant
            i <= rates@.len(),
            rates_view(out@) == rates_view(old(out)@) + spec_simple(rates@.subrange(0, i as int), rt),
        decreases rates@.len() - i,
    {
        let ghost before = rates_view(out@);
        let v = &rates[i];
        out.push(
            ModRate {
                from: v.currency.clone(),
                to: Currency::default(),
                rate_type: rt,
                buy: Some(v.buy),
                sell: Some(v.sell),
            },
        );
        assert(rates_view(out@) =~= before.push(
            rate_of(v.currency@, "AMD"@, rt, Some(v.buy), Some(v.sell)),
        ));
        assert(spec_simple(rates@.subrange(0, i + 1), rt) =~= spec_simple(rates@.subrange(0, i as int), rt).push(
            rate_of(v.currency@, "AMD"@, rt, Some(v.buy), Some(v.sell)),
        ));
        i = i + 1;
    }
    assert(rates@.subrange(0, rates@.len() as int) =~= rates@);
}

/// The rates of a response.
pub fn parse(resp: Response) -> (r: Vec<ModRate>)
    ensures
        rates_view(r@) == spec_parse(resp),
{
    let mut results: Vec<ModRate> = Vec::new();
    assert(rates_view(results@) =~= Seq::<RateView>::empty());
    push_simple(&mut results, &resp.result.rates.non_cash, RateType::NoCash);
    push_simple(&mut results, &resp.result.rates.cash, RateType::Cash);
    let cross = &resp.result.rates.cross;
    let ghost base = rates_view(results@);
    let mut i: usize = 0;
    while i < cross.len()
        invariant
            i <= cross@.len(),
            rates_view(results@) == base + spec_cross(cross@.subrange(0, i as int)),
        decreases cross@.len() - i,
    {
        let ghost before = rates_view(results@);
        let rate = &cross[i];
        assert(cross@.subrange(0, i + 1).drop_last() =~= cross@.subrange(0, i as int));
        match split_once_char(rate.currency.as_str(), '/') {
            Some((from, to)) => {
                let r = ModRate {
                    from: Currency::new(from.as_str()),
                    to: Currency::new(to.as_str()),
                    rate_type: RateType::NoCash,
                    buy: Some(rate.buy),
                    sell: Some(rate.sell),
                };
                results.push(r);
                assert(rates_view(results@) =~= before.push(r@));
            },
            None => {},
        }
        i = i + 1;
    }
    assert(cross@.subrange(0, cross@.len() as int) =~= cross@);
    results
}

proof fn lemma_cross_contains(cross: Seq<CrossRate>, k: int, a: Seq<char>, b: Seq<char>)
    requires
        0 <= k < cross.len(),
        spec_split_once(cross[k].currency@, '/') == Some((a, b)),
    ensures
        spec_cross(cross).contains(
            rate_of(spec_currency_code(a), spec_currency_code(b), RateType::NoCash, Some(cross[k].buy), Some(cross[k].sell)),
        ),
    decreases cross.len(),
{
    let x = rate_of(spec_currency_code(a), spec_currency_code(b), RateType::NoCash, Some(cross[k].buy), Some(cross[k].sell));
    let prev = spec_cross(cross.drop_last());
    if k < cross.len() - 1 {
        assert(cross.drop_last()[k] == cross[k]);
        lemma_cross_contains(cross.drop_last(), k, a, b);
        let j = choose|j: int| 0 <= j < prev.len() && prev[j] == x;
        match spec_split_once(cross.last().currency@, '/') {
            Some(_) => assert(spec_cross(cross)[j] == x),
            None => assert(spec_cross(cross) == prev),
        }
    } else {
        assert(cross.last() == cross[k]);
        assert(spec_cross(cross) == prev.push(x));
        assert(spec_cross(cross)[prev.len() as int] == x);
    }
}

/// A cross rate named with two codes joined by "/" is read as the transfer
/// rate of the first currency in the second, with the item's buying and
/// selling rates: for "EUR/USD", euros in dollars.
pub proof fn lemma_cross_direction(resp: Response, k: int, a: Seq<char>, b: Seq<char>)
    requires
        0 <= k < resp.result.rates.cross@.len(),
        resp.result.rates.cross@[k].currency@ == a + seq!['/'] + b,
        !a.contains('/'),
    ensures
        spec_parse(resp).contains(
            rate_of(
                spec_currency_code(a),
                spec_currency_code(b),
                RateType::NoCash,
                Some(resp.result.rates.cross@[k].buy),
                Some(resp.result.rates.cross@[k].sell),
            ),
        ),
{
    let cross = resp.result.rates.cross@;
    crate::text::lemma_split_once_join(a, '/', b);
    lemma_cross_contains(cross, k, a, b);
    let x = rate_of(spec_currency_code(a), spec_currency_code(b), RateType::NoCash, Some(cross[k].buy), Some(cross[k].sell));
    let c = spec_cross(cross);
    let j = choose|j: int| 0 <= j < c.len() && c[j] == x;
    let head = spec_simple(resp.result.rates.non_cash@, RateType::NoCash) + spec_simple(
        resp.result.rates.cash@,
        RateType::Cash,
    );
    assert(spec_parse(resp) == head + c);
    assert(spec_parse(resp)[head.len() + j] == x);
}

/// The transfer list comes first, then the cash list, each item read as the
/// rate of its currency in drams with its buying and selling rates, of the
/// list's rate type.
pub proof fn lemma_simple_rates(resp: Response, k: int)
    ensures
        0 <= k < resp.result.rates.non_cash@.len() ==> spec_parse(resp)[k] == rate_of(
            resp.result.rates.non_cash@[k].currency@,
            "AMD"@,
            RateType::NoCash,
            Some(resp.result.rates.non_cash@[k].buy),
            Some(resp.result.rates.non_cash@[k].sell),
        ),
        0 <= k < resp.result.rates.cash@.len() ==> spec_parse(resp)[resp.result.rates.non_cash@.len() + k] == rate_of(
            resp.result.rates.cash@[k].currency@,
            "AMD"@,
            RateType::Cash,
            Some(resp.result.rates.cash@[k].buy),
            Some(resp.result.rates.cash@[k].sell),
        ),
{
    let a = spec_simple(resp.result.rates.non_cash@, RateType::NoCash);
    let b = spec_simple(resp.result.rates.cash@, RateType::Cash);
    let c = spec_cross(resp.result.rates.cross@);
    assert(spec_parse(resp) == a + b + c);
    if 0 <= k < resp.result.rates.non_cash@.len() {
        assert(spec_parse(resp)[k] == a[k]);
    }
    if 0 <= k < resp.result.rates.cash@.len() {
        assert(spec_parse(resp)[a.len() + k] == b[k]);
    }
}

} // verus!
