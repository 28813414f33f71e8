//! Kwikpay: the rouble transfer rate, the bank's cash buying rate less a
//! commission.
use crate::decimal::Dec;
use crate::source::{
    less_percent, rate_of, rates_view, spec_less_percent, BaseConfigTrait, Currency, Error, Rate, RateType,
    RateView,
};
use crate::text::str_eq;
use vstd::prelude::*;

verus! {

#[derive(Debug)]
pub struct Config {
    pub rates_url: String,
    pub enabled: bool,
    pub commission_rate: Dec,
}

impl Clone for Config {
    fn clone(&self) -> (r: Self)
        ensures
            r == *self,
    {
        Config { rates_url: self.rates_url.clone(), enabled: self.enabled, commission_rate: self.commission_rate }
    }
}

impl BaseConfigTrait for Config {
    fn rates_url(&self) -> (r: String)
        ensures
            r@ == self.rates_url@,
    {
        self.rates_url.clone()
    }
}

/// Whether a rate is the cash rate of roubles.
pub open spec fn is_cash_rub(r: Rate) -> bool {
    r.rate_type == RateType::Cash && r.from@ == "RUB"@
}

/// The first cash rate of roubles.
pub open spec fn spec_first_cash_rub(rates: Seq<Rate>) -> Option<Rate>
    decreases rates.len(),
{
    if rates.len() == 0 {
        None
    } else if is_cash_rub(rates[0]) {
        Some(rates[0])
    } else {
        spec_first_cash_rub(rates.drop_first())
    }
}

/// The rates made from the bank's rates: `NoRates` where there is no cash
/// rate of roubles or it has no buying rate; else the rouble transfer rate,
/// the buying rate less the commission; nothing where that overflows.
pub open spec fn spec_parse(rates: Seq<Rate>, commission: Dec) -> Option<core::result::Result<Seq<RateView>, Error>> {
    match spec_first_cash_rub(rates) {
        None => Some(Err(Error::NoRates)),
        Some(r) => match r.buy {
            None => Some(Err(Error::NoRates)),
            Some(b) => match spec_less_percent(b, commission) {
                Some(x) => Some(Ok(seq![rate_of("RUB"@, "AMD"@, RateType::NoCash, Some(x), None)])),
                None => None,
            },
        },
    }
}

fn find_cash_rub(rates: &Vec<Rate>) -> (r: Option<usize>)
    ensures
        r is None ==> spec_first_cash_rub(rates@) is None,
        r matches Some(i) ==> i < rates@.len() && spec_first_cash_rub(rates@) == Some(rates@[i as int]),
{
    let n = rates.len();
    let mut i: usize = 0;
    assert(rates@.subrange(0, n as int) =~= rates@);
    while i < n
        invariant
            n == rates@.len(),
            i <= n,
            spec_first_cash_rub(rates@) == spec_first_cash_rub(rates@.subrange(i as int, n as int)),
        decreases n - i,
    {
        assert(rates@.subrange(i as int, n as int).drop_first() =~= rates@.subrange(i + 1, n as int));
        assert(rates@.subrange(i as int, n as int)[0] == rates@[i as int]);
        if rates[i].rate_type == RateType::Cash && str_eq(rates[i].from.0.as_str(), "RUB") {
            return Some(i);
        }
        i = i + 1;
    }
    None
}

/// The rates made from the bank's rates; `None` where the arithmetic
/// overflows.
pub fn try_parse(rates: &Vec<Rate>, config: &Config) -> (r: Option<core::result::Result<Vec<Rate>, Error>>)
    ensures
        r is None <==> spec_parse(rates@, config.commission_rate) is None,
        r matches Some(Err(e)) ==> spec_parse(rates@, config.commission_rate) == Some(
            core::result::Result::<Seq<RateView>, Error>::Err(e),
        ),
        r matches Some(Ok(v)) ==> spec_parse(rates@, config.commission_rate) == Some(
            core::result::Result::<Seq<RateView>, Error>::Ok(rates_view(v@)),
        ),
{
    let i = match find_cash_rub(rates) {
        Some(i) => i,
        None => return Some(Err(Error::NoRates)),
    };
    let buy = match rates[i].buy {
        Some(b) => b,
        None => return Some(Err(Error::NoRates)),
    };
    match less_percent(buy, config.commission_rate) {
        Some(x) => {
            let v = vec![Rate { from: Currency::rub(), to: Currency::default(), rate_type: RateType::NoCash, buy: Some(x), sell: None }];
            assert(rates_view(v@) =~= seq![rate_of("RUB"@, "AMD"@, RateType::NoCash, Some(x), None)]);
            Some(Ok(v))
        },
        None => None,
    }
}

/// The rates made from the bank's rates: `NoRates` where there is no cash
/// rate of roubles with a buying rate.
pub fn parse(rates: &Vec<Rate>, config: &Config) -> (r: core::result::Result<Vec<Rate>, Error>)
    requires
        spec_parse(rates@, config.commission_rate) is Some,
    ensures
        r matches Err(e) ==> spec_parse(rates@, config.commission_rate) == Some(
            core::result::Result::<Seq<RateView>, Error>::Err(e),
        ),
        r matches Ok(v) ==> spec_parse(rates@, config.commission_rate) == Some(
            core::result::Result::<Seq<RateView>, Error>::Ok(rates_view(v@)),
        ),
{
    try_parse(rates, config).unwrap()
}

} // verus!
