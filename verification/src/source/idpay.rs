//! IdPay: rouble transfer rates made from IDBank's rates and commissions.
pub use crate::source::idbank::Response;
use crate::decimal::{spec_checked_add, Dec};
use crate::source::idbank::CurrencyRate;
use crate::source::{
    less_percent, plus_percent, rate_of, rates_view, spec_less_percent, spec_plus_percent, BaseConfigTrait,
    Currency, Error, Rate, RateType, RateView,
};
use crate::text::str_eq;
use vstd::prelude::*;

verus! {

#[derive(Debug)]
pub struct Config {
    pub rates_url: String,
    pub enabled: bool,
    pub commission_rate: Dec,
    pub commission_rate_to_ru_card: Dec,
}

impl Clone for Config {
    fn clone(&self) -> (r: Self)
        ensures
            r == *self,
    {
        Config {
            rates_url: self.rates_url.clone(),
            enabled: self.enabled,
            commission_rate: self.commission_rate,
            commission_rate_to_ru_card: self.commission_rate_to_ru_card,
        }
    }
}

impl BaseConfigTrait for Config {
    fn rates_url(&self) -> (r: String)
        ensures
            r@ == self.rates_url@,
    {
        self.rates_url.clone()
    }
}

/// The first rate of roubles.
pub open spec fn spec_first_rub(rates: Seq<CurrencyRate>) -> Option<CurrencyRate>
    decreases rates.len(),
{
    if rates.len() == 0 {
        None
    } else if rates[0].iso_txt@ == "RUB"@ {
        Some(rates[0])
    } else {
        spec_first_rub(rates.drop_first())
    }
}

/// A positive rate less the commission; no rate where there is none or it is
/// not positive; nothing where the arithmetic overflows.
pub open spec fn spec_buy(o: Option<Dec>, c: Dec) -> Option<Option<Dec>> {
    match o {
        Some(b) => if b.m() > 0 {
            match spec_less_percent(b, c) {
                Some(x) => Some(Some(x)),
                None => None,
            }
        } else {
            Some(None)
        },
        None => Some(None),
    }
}

/// A positive rate plus both commissions; no rate where there is none or it
/// is not positive; nothing where the arithmetic overflows.
pub open spec fn spec_sell(o: Option<Dec>, c: Dec, c2: Dec) -> Option<Option<Dec>> {
    match o {
        Some(s) => if s.m() > 0 {
            match spec_checked_add(c, c2) {
                Some(t) => match spec_plus_percent(s, t) {
                    Some(x) => Some(Some(x)),
                    None => None,
                },
                None => None,
            }
        } else {
            Some(None)
        },
        None => Some(None),
    }
}

/// The rates made from IDBank's rates: `NoRates` where there is no rate of
/// roubles; else the transfer rate to a card, from the bank's transfer rates
/// and the commissions, and the rate of a transfer to the bank, from its cash
/// selling rate for transfers; nothing where the arithmetic overflows.
pub open spec fn spec_parse(resp: Response, config: Config) -> Option<core::result::Result<Seq<RateView>, Error>> {
    match spec_first_rub(resp.result.currency_rate@) {
        None => Some(Err(Error::NoRates)),
        Some(r) => match (
            spec_buy(r.buy, config.commission_rate),
            spec_sell(r.sell, config.commission_rate, config.commission_rate_to_ru_card),
            spec_buy(r.csh_sell_trf, config.commission_rate),
        ) {
            (Some(buy), Some(sell), Some(buy_idbank)) => Some(
                Ok(
                    seq![
                        rate_of("RUB"@, "AMD"@, RateType::NoCash, buy, sell),
                        rate_of("RUB"@, "AMD"@, RateType::NoCash, buy_idbank, None),
                    ],
                ),
            ),
            _ => None,
        },
    }
}

fn buy_of(o: Option<Dec>, c: Dec) -> (r: Option<Option<Dec>>)
    ensures
        r == spec_buy(o, c),
{
    match o {
        Some(b) => if b.is_positive() {
            match less_percent(b, c) {
                Some(x) => Some(Some(x)),
                None => None,
            }
        } else {
            Some(None)
        },
        None => Some(None),
    }
}

fn sell_of(o: Option<Dec>, c: Dec, c2: Dec) -> (r: Option<Option<Dec>>)
    ensures
        r == spec_sell(o, c, c2),
{
    match o {
        Some(s) => if s.is_positive() {
            match c.checked_add(&c2) {
                Some(t) => match plus_percent(s, t) {
                    Some(x) => Some(Some(x)),
                    None => None,
                },
                None => None,
            }
        } else {
            Some(None)
        },
        None => Some(None),
    }
}

fn find_rub(rates: &Vec<CurrencyRate>) -> (r: Option<usize>)
    ensures
        r is None ==> spec_first_rub(rates@) is None,
        r matches Some(i) ==> i < rates@.len() && spec_first_rub(rates@) == Some(rates@[i as int]),
{
    let n = rates.len();
    let mut i: usize = 0;
    assert(rates@.subrange(0, n as int) =~= rates@);
    while i < n
        invariant
            n == rates@.len(),
            i <= n,
            spec_first_rub(rates@) == spec_first_rub(rates@.subrange(i as int, n as int)),
        decreases n - i,
    {
        assert(rates@.subrange(i as int, n as int).drop_first() =~= rates@.subrange(i + 1, n as int));
        assert(rates@.subrange(i as int, n as int)[0] == rates@[i as int]);
        if str_eq(rates[i].iso_txt.0.as_str(), "RUB") {
            return Some(i);
        }
        i = i + 1;
    }
    None
}

/// The rates made from IDBank's rates; `None` where the arithmetic overflows.
pub fn try_parse(resp: &Response, config: &Config) -> (r: Option<core::result::Result<Vec<Rate>, Error>>)
    ensures
        r is None <==> spec_parse(*resp, *config) is None,
        r matches Some(Err(e)) ==> spec_parse(*resp, *config) == Some(
            core::result::Result::<Seq<RateView>, Error>::Err(e),
        ),
        r matches Some(Ok(v)) ==> spec_parse(*resp, *config) == Some(
            core::result::Result::<Seq<RateView>, Error>::Ok(rates_view(v@)),
        ),
{
    let i = match find_rub(&resp.result.currency_rate) {
        Some(i) => i,
        None => return Some(Err(Error::NoRates)),
    };
    let rate = &resp.result.currency_rate[i];
    let buy = buy_of(rate.buy, config.commission_rate);
    let sell = sell_of(rate.sell, config.commission_rate, config.commission_rate_to_ru_card);
    let buy_idbank = buy_of(rate.csh_sell_trf, config.commission_rate);
    match (buy, sell, buy_idbank) {
        (Some(buy), Some(sell), Some(buy_idbank)) => {
            let v = vec![
                Rate { from: Currency::rub(), to: Currency::default(), rate_type: RateType::NoCash, buy, sell },
                Rate { from: Currency::rub(), to: Currency::default(), rate_type: RateType::NoCash, buy: buy_idbank, sell: None },
            ];
            assert(rates_view(v@) =~= seq![
                rate_of("RUB"@, "AMD"@, RateType::NoCash, buy, sell),
                rate_of("RUB"@, "AMD"@, RateType::NoCash, buy_idbank, None),
            ]);
            Some(Ok(v))
        },
        _ => None,
    }
}

/// The rates made from IDBank's rates: `NoRates` where there is no rate of
/// roubles.
pub fn parse(resp: &Response, config: &Config) -> (r: core::result::Result<Vec<Rate>, Error>)
    requires
        spec_parse(*resp, *config) is Some,
    ensures
        r matches Err(e) ==> spec_parse(*resp, *config) == Some(core::result::Result::<Seq<RateView>, Error>::Err(e)),
        r matches Ok(v) ==> spec_parse(*resp, *config) == Some(
            core::result::Result::<Seq<RateView>, Error>::Ok(rates_view(v@)),
        ),
{
    try_parse(resp, config).unwrap()
}

} // verus!
