//! Alfa-Bank Belarus: rates of roubles, dollars and euros in Belarusian
//! roubles, and conversion rates of dollars and euros in roubles, with a
//! commission on what the bank sells.
use crate::decimal::{spec_checked_div, spec_parse_decimal, Dec};
use crate::source::{
    fold_rates, lemma_fold_rates_none, lemma_fold_rates_step, plus_percent, rate_of, rates_view,
    spec_currency_code, spec_plus_percent, Currency, Error, Rate, RateType, RateView,
};
use crate::html::{doc_find_attr, node_attr, spec_doc_find_attr, spec_node_attr};
use crate::text::{spec_split_once, split_once_char, str_eq, to_owned};
use vstd::prelude::*;

verus! {

#[derive(Debug)]
pub struct Config {
    pub rates_url: String,
    pub enabled: bool,
    pub commission_rate: Dec,
}

impl Clone for Config {
    fn clone(&self) -> (r: Self)
        ensures
            r == *self,
    {
        Config { rates_url: self.rates_url.clone(), enabled: self.enabled, commission_rate: self.commission_rate }
    }
}

#[derive(Debug)]
pub struct Response {
    pub initial_items: Vec<Item>,
}

#[derive(Debug)]
pub struct Item {
    pub currencies_data: Vec<CurrencyData>,
}

#[derive(Debug)]
pub struct CurrencyData {
    pub value: Value,
}

#[derive(Debug)]
pub struct Value {
    pub exchange_rate: Vec<ValueRate>,
    pub conversion_rate: Option<Vec<ValueRate>>,
}

#[derive(Debug)]
pub struct ValueRate {
    pub title: String,
    pub purchase: RateValue,
    pub sell: RateValue,
}

#[derive(Debug)]
pub struct RateValue {
    pub value: Dec,
}

/// The pattern of a rate's title: a number of units, anything, then a
/// currency code in brackets, as in "100 российских рублей (RUB)".
pub const TITLE_PATTERN: &'static str = r"(?P<amount>\d+).*\((?P<iso>[A-Z]{3})\)";

/// What the `regex` crate finds in `text` for `pattern`: the texts of the
/// groups named `first` and `second` in the leftmost match; nothing where the
/// pattern is not valid, nothing matches or a group took no part.
pub uninterp spec fn spec_regex_captures(
    pattern: Seq<char>,
    text: Seq<char>,
    first: Seq<char>,
    second: Seq<char>,
) -> Option<(Seq<char>, Seq<char>)>;

/// Calls `regex::Regex::new`, `Regex::captures` and `Captures::name`: the
/// texts of two named groups of the leftmost match. The contract names the
/// result and says nothing more of it.
#[verifier::external_body]
fn regex_captures(pattern: &str, text: &str, first: &str, second: &str) -> (r: Option<(String, String)>)
    ensures
        r is None ==> spec_regex_captures(pattern@, text@, first@, second@) is None,
        r matches Some((a, b)) ==> spec_regex_captures(pattern@, text@, first@, second@) == Some((a@, b@)),
{
    let re = regex::Regex::new(pattern).ok()?;
    let caps = re.captures(text)?;
    let a = caps.name(first)?.as_str().to_string();
    let b = caps.name(second)?.as_str().to_string();
    Some((a, b))
}

/// The number of units and the currency a title names, nothing where it does
/// not match the pattern or the number is not a decimal.
pub open spec fn spec_regex_helper(s: Seq<char>) -> Option<(Dec, Seq<char>)> {
    match spec_regex_captures(TITLE_PATTERN@, s, "amount"@, "iso"@) {
        None => None,
        Some((a, iso)) => match spec_parse_decimal(a) {
            None => None,
            Some(d) => Some((d, spec_currency_code(iso))),
        },
    }
}

/// The number of units and the currency a title names.
pub fn regex_helper(s: &str) -> (r: Option<(Dec, Currency)>)
    ensures
        r is None <==> spec_regex_helper(s@) is None,
        r matches Some((d, c)) ==> spec_regex_helper(s@) == Some((d, c@)),
{
    let (a, iso) = match regex_captures(TITLE_PATTERN, s, "amount", "iso") {
        Some(x) => x,
        None => return None,
    };
    match Dec::from_str(a.as_str()) {
        Ok(d) => Some((d, Currency::new(iso.as_str()))),
        Err(_) => None,
    }
}

/// The rate an exchange entry gives in Belarusian roubles: for roubles the
/// buying rate of one unit; for dollars and euros the selling rate of one
/// unit plus the commission; none for any other title. Nothing where the
/// arithmetic fails.
pub open spec fn spec_exchange_item(rate: ValueRate, c: Dec) -> Option<Seq<RateView>> {
    match spec_regex_helper(rate.title@) {
        None => Some(Seq::empty()),
        Some((amount, from)) => if from == "RUB"@ {
            match spec_checked_div(rate.purchase.value, amount) {
                Some(b) => Some(seq![rate_of(from, "BYN"@, RateType::NoCash, Some(b), None)]),
                None => None,
            }
        } else if from == "USD"@ || from == "EUR"@ {
            match spec_checked_div(rate.sell.value, amount) {
                Some(s) => match spec_plus_percent(s, c) {
                    Some(x) => Some(seq![rate_of(from, "BYN"@, RateType::NoCash, None, Some(x))]),
                    None => None,
                },
                None => None,
            }
        } else {
            Some(Seq::empty())
        },
    }
}

/// The rate a conversion entry "USD/RUB" or "EUR/RUB" gives: its selling
/// rate plus the commission; none for any other title. Nothing where the
/// arithmetic fails.
pub open spec fn spec_conversion_item(rate: ValueRate, c: Dec) -> Option<Seq<RateView>> {
    match spec_split_once(rate.title@, '/') {
        None => Some(Seq::empty()),
        Some((f, t)) => if (f == "USD"@ || f == "EUR"@) && t == "RUB"@ {
            match spec_plus_percent(rate.sell.value, c) {
                Some(x) => Some(seq![rate_of(f, t, RateType::NoCash, None, Some(x))]),
                None => None,
            }
        } else {
            Some(Seq::empty())
        },
    }
}

/// The rates of the conversion entries, none where there are none.
pub open spec fn spec_conversions(v: Value, c: Dec) -> Option<Seq<RateView>> {
    match v.conversion_rate {
        Some(list) => fold_rates(list@, |r: ValueRate| spec_conversion_item(r, c)),
        None => Some(Seq::empty()),
    }
}

/// The rates of a response: `NoRates` where it has no item or its first item
/// no currency data; else the rates of the exchange entries of the first
/// currency data, then those of its conversion entries. Nothing where the
/// arithmetic fails.
pub open spec fn spec_collect(resp: Response, c: Dec) -> Option<core::result::Result<Seq<RateView>, Error>> {
    if resp.initial_items@.len() == 0 {
        Some(Err(Error::NoRates))
    } else if resp.initial_items@[0].currencies_data@.len() == 0 {
        Some(Err(Error::NoRates))
    } else {
        let v = resp.initial_items@[0].currencies_data@[0].value;
        match (fold_rates(v.exchange_rate@, |r: ValueRate| spec_exchange_item(r, c)), spec_conversions(v, c)) {
            (Some(a), Some(b)) => Some(Ok(a + b)),
            _ => None,
        }
    }
}

fn exchange_item(rate: &ValueRate, c: Dec) -> (r: Option<Vec<Rate>>)
    ensures
        r is None <==> spec_exchange_item(*rate, c) is None,
        r matches Some(v) ==> spec_exchange_item(*rate, c) == Some(rates_view(v@)),
{
    let mut out: Vec<Rate> = Vec::new();
    assert(rates_view(out@) =~= Seq::<RateView>::empty());
    let (amount, from) = match regex_helper(rate.title.as_str()) {
        Some(x) => x,
        None => return Some(out),
    };
    if str_eq(from.0.as_str(), "RUB") {
        match rate.purchase.value.checked_div(&amount) {
            Some(b) => {
                out.push(Rate { from, to: Currency(to_owned("BYN")), rate_type: RateType::NoCash, buy: Some(b), sell: None });
                assert(rates_view(out@) =~= seq![rate_of(from@, "BYN"@, RateType::NoCash, Some(b), None)]);
                Some(out)
            },
            None => None,
        }
    } else if str_eq(from.0.as_str(), "USD") || str_eq(from.0.as_str(), "EUR") {
        match rate.sell.value.checked_div(&amount) {
            Some(s) => match plus_percent(s, c) {
                Some(x) => {
                    let ghost f = from@;
                    out.push(Rate { from, to: Currency(to_owned("BYN")), rate_type: RateType::NoCash, buy: None, sell: Some(x) });
                    assert(rates_view(out@) =~= seq![rate_of(f, "BYN"@, RateType::NoCash, None, Some(x))]);
                    Some(out)
                },
                None => None,
            },
            None => None,
        }
    } else {
        Some(out)
    }
}

fn conversion_item(rate: &ValueRate, c: Dec) -> (r: Option<Vec<Rate>>)
    ensures
        r is None <==> spec_conversion_item(*rate, c) is None,
        r matches Some(v) ==> spec_conversion_item(*rate, c) == Some(rates_view(v@)),
{
    let mut out: Vec<Rate> = Vec::new();
    assert(rates_view(out@) =~= Seq::<RateView>::empty());
    let (f, t) = match split_once_char(rate.title.as_str(), '/') {
        Some(x) => x,
        None => return Some(out),
    };
    let is_usd = str_eq(f.as_str(), "USD");
    let is_eur = str_eq(f.as_str(), "EUR");
    if (is_usd || is_eur) && str_eq(t.as_str(), "RUB") {
        match plus_percent(rate.sell.value, c) {
            Some(x) => {
                let from = if is_usd {
                    Currency::usd()
                } else {
                    Currency::eur()
                };
                out.push(Rate { from, to: Currency::rub(), rate_type: RateType::NoCash, buy: None, sell: Some(x) });
                assert(rates_view(out@) =~= seq![rate_of(f@, t@, RateType::NoCash, None, Some(x))]);
                Some(out)
            },
            None => None,
        }
    } else {
        Some(out)
    }
}

fn append(out: &mut Vec<Rate>, more: Vec<Rate>)
    ensures
        rates_view(final(out)@) == rates_view(old(out)@) + rates_view(more@),
{
    let mut i: usize = 0;
    while i < more.len()
        invariant
            i <= more@.len(),
            rates_view(out@) == rates_view(old(out)@) + rates_view(more@.subrange(0, i as int)),
        decreases more@.len() - i,
    {
        let ghost before = rates_view(out@);
        let x = more[i].clone();
        out.push(x);
        assert(more@.subrange(0, i + 1) =~= more@.subrange(0, i as int).push(x));
        assert(rates_view(more@.subrange(0, i + 1)) =~= rates_view(more@.subrange(0, i as int)).push(x@));
        assert(rates_view(out@) =~= before.push(x@));
        i = i + 1;
        assert(rates_view(out@) =~= rates_view(old(out)@) + rates_view(more@.subrange(0, i as int)));
    }
    assert(more@.subrange(0, more@.len() as int) =~= more@);
}

fn exchange_rates(list: &Vec<ValueRate>, c: Dec) -> (r: Option<Vec<Rate>>)
    ensures
        r is None <==> fold_rates(list@, |x: ValueRate| spec_exchange_item(x, c)) is None,
        r matches Some(v) ==> fold_rates(list@, |x: ValueRate| spec_exchange_item(x, c)) == Some(rates_view(v@)),
{
    let ghost f = |x: ValueRate| spec_exchange_item(x, c);
    let n = list.len();
    let mut rates: Vec<Rate> = Vec::new();
    let mut i: usize = 0;
    assert(rates_view(rates@) =~= Seq::<RateView>::empty());
    assert(list@.subrange(0, 0) =~= Seq::<ValueRate>::empty());
    while i < n
        invariant
            n == list@.len(),
            i <= n,
            f == (|x: ValueRate| spec_exchange_item(x, c)),
            fold_rates(list@.subrange(0, i as int), f) == Some(rates_view(rates@)),
        decreases n - i,
    {
        proof {
            lemma_fold_rates_step(list@, f, i as int);
        }
        match exchange_item(&list[i], c) {
            Some(more) => append(&mut rates, more),
            None => {
                proof {
                    lemma_fold_rates_none(list@, f, i + 1);
                }
                return None;
            },
        }
        i = i + 1;
    }
    assert(list@.subrange(0, n as int) =~= list@);
    Some(rates)
}

fn conversion_rates(list: &Vec<ValueRate>, c: Dec) -> (r: Option<Vec<Rate>>)
    ensures
        r is None <==> fold_rates(list@, |x: ValueRate| spec_conversion_item(x, c)) is None,
        r matches Some(v) ==> fold_rates(list@, |x: ValueRate| spec_conversion_item(x, c)) == Some(rates_view(v@)),
{
    let ghost f = |x: ValueRate| spec_conversion_item(x, c);
    let n = list.len();
    let mut rates: Vec<Rate> = Vec::new();
    let mut i: usize = 0;
    assert(rates_view(rates@) =~= Seq::<RateView>::empty());
    assert(list@.subrange(0, 0) =~= Seq::<ValueRate>::empty());
    while i < n
        invariant
            n == list@.len(),
            i <= n,
            f == (|x: ValueRate| spec_conversion_item(x, c)),
            fold_rates(list@.subrange(0, i as int), f) == Some(rates_view(rates@)),
        decreases n - i,
    {
        proof {
            lemma_fold_rates_step(list@, f, i as int);
        }
        match conversion_item(&list[i], c) {
            Some(more) => append(&mut rates, more),
            None => {
                proof {
                    lemma_fold_rates_none(list@, f, i + 1);
                }
                return None;
            },
        }
        i = i + 1;
    }
    assert(list@.subrange(0, n as int) =~= list@);
    Some(rates)
}

/// The rates of a response; `None` where the arithmetic fails.
pub fn try_collect(resp: &Response, config: &Config) -> (r: Option<core::result::Result<Vec<Rate>, Error>>)
    ensures
        r is None <==> spec_collect(*resp, config.commission_rate) is None,
        r matches Some(Err(e)) ==> spec_collect(*resp, config.commission_rate) == Some(
            core::result::Result::<Seq<RateView>, Error>::Err(e),
        ),
        r matches Some(Ok(v)) ==> spec_collect(*resp, config.commission_rate) == Some(
            core::result::Result::<Seq<RateView>, Error>::Ok(rates_view(v@)),
        ),
{
    if resp.initial_items.len() == 0 {
        return Some(Err(Error::NoRates));
    }
    let item = &resp.initial_items[0];
    if item.currencies_data.len() == 0 {
        return Some(Err(Error::NoRates));
    }
    let v = &item.currencies_data[0].value;
    let c = config.commission_rate;
    let mut rates = match exchange_rates(&v.exchange_rate, c) {
        Some(x) => x,
        None => return None,
    };
    match &v.conversion_rate {
        Some(list) => match conversion_rates(list, c) {
            Some(more) => append(&mut rates, more),
            None => return None,
        },
        None => {
            assert(rates_view(rates@) + Seq::<RateView>::empty() =~= rates_view(rates@));
        },
    }
    Some(Ok(rates))
}

/// The rates of a response; `NoRates` where it has no item or its first item
/// no currency data.
pub fn collect(resp: &Response, config: &Config) -> (r: core::result::Result<Vec<Rate>, Error>)
    requires
        spec_collect(*resp, config.commission_rate) is Some,
    ensures
        r matches Err(e) ==> spec_collect(*resp, config.commission_rate) == Some(
            core::result::Result::<Seq<RateView>, Error>::Err(e),
        ),
        r matches Ok(v) ==> spec_collect(*resp, config.commission_rate) == Some(
            core::result::Result::<Seq<RateView>, Error>::Ok(rates_view(v@)),
        ),
{
    try_collect(resp, config).unwrap()
}

/// The JSON the exchange page starts with: the `data-initial` attribute of
/// the page's first element whose `data-component` is `ExchangePage`; `Html`
/// where there is no such element or attribute.
pub open spec fn spec_initial_json(html: Seq<char>) -> core::result::Result<Seq<char>, Error> {
    let divs = spec_doc_find_attr(html, "data-component"@, "ExchangePage"@);
    if divs.len() == 0 {
        Err(Error::Html)
    } else {
        match spec_node_attr(html, divs[0], "data-initial"@) {
            Some(v) => Ok(v),
            None => Err(Error::Html),
        }
    }
}

/// The JSON the exchange page starts with.
pub fn initial_json(html: &str) -> (r: core::result::Result<String, Error>)
    ensures
        r is Err <==> spec_initial_json(html@) is Err,
        r matches Err(e) ==> spec_initial_json(html@) == Err::<Seq<char>, Error>(e),
        r matches Ok(v) ==> spec_initial_json(html@) == Ok::<Seq<char>, Error>(v@),
{
    let divs = doc_find_attr(html, "data-component", "ExchangePage");
    if divs.len() == 0 {
        return Err(Error::Html);
    }
    match node_attr(html, divs[0], "data-initial") {
        Some(v) => Ok(v),
        None => Err(Error::Html),
    }
}

} // verus!
