//! Mir card system: the rouble rate against the dram, given as dram in roubles.
pub use crate::source::BaseConfig as Config;
use crate::decimal::{spec_checked_div, Dec};
use crate::source::{rate_of, rates_view, Currency as ModCurrency, Error, Rate, RateType, RateView};
use crate::text::str_eq;
use vstd::prelude::*;

verus! {

#[derive(Debug)]
pub struct Response {
    pub content: Vec<Content>,
}

#[derive(Debug)]
pub struct Content {
    pub currency: Currency,
    pub value_buy: Dec,
    pub value_sell: Dec,
}

#[derive(Debug)]
pub struct Currency {
    pub strcode: ModCurrency,
}

/// `1 / x` for a positive `x`, else nothing.
pub open spec fn spec_inverse(x: Dec) -> Option<Dec> {
    if x.m() > 0 {
        spec_checked_div(Dec::spec_new(1, 0), x)
    } else {
        None
    }
}

/// `1 / x` for a positive `x`, else `None`.
pub fn inverse(x: &Dec) -> (r: Option<Dec>)
    ensures
        r == spec_inverse(*x),
        x.m() > 0 ==> r is Some,
{
    if x.is_positive() {
        Some(x.recip())
    } else {
        None
    }
}

/// The first entry whose currency is the dram.
pub open spec fn spec_first_amd(s: Seq<Content>) -> Option<Content>
    decreases s.len(),
{
    if s.len() == 0 {
        None
    } else if s[0].currency.strcode@ == "AMD"@ {
        Some(s[0])
    } else {
        spec_first_amd(s.drop_first())
    }
}

/// The two rates of roubles in dram made from an entry: the buying rate is
/// the inverse of the selling value and the other way round.
pub open spec fn spec_rates(c: Content) -> Seq<RateView> {
    seq![
        rate_of("RUB"@, "AMD"@, RateType::NoCash, spec_inverse(c.value_sell), spec_inverse(c.value_buy)),
        rate_of("RUB"@, "AMD"@, RateType::Cash, spec_inverse(c.value_sell), spec_inverse(c.value_buy)),
    ]
}

/// The rates of a response, nothing where no entry is the dram.
pub open spec fn spec_parse(resp: Response) -> Option<Seq<RateView>> {
    match spec_first_amd(resp.content@) {
        Some(c) => Some(spec_rates(c)),
        None => None,
    }
}

/// The rates of a response; `NoRates` where no entry is the dram.
pub fn parse(resp: &Response) -> (r: core::result::Result<Vec<Rate>, Error>)
    ensures
        r is Err <==> spec_parse(*resp) is None,
        r matches Err(e) ==> e == Error::NoRates,
        r matches Ok(v) ==> spec_parse(*resp) == Some(rates_view(v@)),
{
    let content = &resp.content;
    let n = content.len();
    let mut i: usize = 0;
    assert(content@.subrange(0, n as int) =~= content@);
    while i < n
        invariant
            n == content@.len(),
            content@ == resp.content@,
            i <= n,
            spec_first_amd(content@) == spec_first_amd(content@.subrange(i as int, n as int)),
        decreases n - i,
    {
        let c = &content[i];
        assert(content@.subrange(i as int, n as int).drop_first() =~= content@.subrange(i + 1, n as int));
        assert(content@.subrange(i as int, n as int)[0] == content@[i as int]);
        if str_eq(c.currency.strcode.0.as_str(), "AMD") {
            let buy = inverse(&c.value_sell);
            let sell = inverse(&c.value_buy);
            let a = Rate { from: ModCurrency::rub(), to: ModCurrency::default(), rate_type: RateType::NoCash, buy, sell };
            let b = Rate { from: ModCurrency::rub(), to: ModCurrency::default(), rate_type: RateType::Cash, buy, sell };
            let v = vec![a, b];
            assert(rates_view(v@) =~= spec_rates(*c));
            return Ok(v);
        }
        i = i + 1;
    }
    Err(Error::NoRates)
}

} // verus!
