//! The Moscow exchange, read through a broker's API: the rouble rate from the
//! best bid and ask of a currency instrument and its nominal.
use crate::decimal::{int_text, spec_checked_div, spec_int_text, spec_parse_decimal, Dec, ParseDecimalError};
use crate::source::{rate_of, rates_view, Currency as ModCurrency, Rate, RateType, RateView};
use crate::text::{push_str, to_owned};
use vstd::prelude::*;

verus! {

/// The environment variable that holds the broker's token.
pub const ENV_TINKOFF_TOKEN: &'static str = "TINKOFF_TOKEN";

#[derive(Debug)]
pub struct GetOrderBookResponse {
    pub bids: Vec<Order>,
    pub asks: Vec<Order>,
}

#[derive(Debug)]
pub struct Quotation {
    pub units: String,
    pub nano: i32,
}

#[derive(Debug)]
pub struct Order {
    pub price: Quotation,
}

#[derive(Debug)]
pub struct GetOrderBookRequest {
    pub depth: i32,
    pub instrument_id: String,
}

impl Clone for GetOrderBookRequest {
    fn clone(&self) -> (r: Self)
        ensures
            r == *self,
    {
        GetOrderBookRequest { depth: self.depth, instrument_id: self.instrument_id.clone() }
    }
}

#[derive(Debug)]
pub struct CurrencyResponse {
    pub instrument: Currency,
}

#[derive(Debug)]
pub struct Currency {
    pub nominal: MoneyValue,
}

#[derive(Debug)]
pub struct MoneyValue {
    pub units: String,
    pub nano: i32,
}

#[derive(Debug)]
pub struct InstrumentRequest {
    pub id_type: InstrumentIdType,
    pub class_code: String,
    pub id: String,
}

/// How an instrument is named in a request; sent as its number.
#[derive(Clone, Copy, Debug, PartialEq, Eq, Structural)]
pub enum InstrumentIdType {
    InstrumentIdUnspecified,
    InstrumentIdTypeFigi,
    InstrumentIdTypeTicker,
    InstrumentIdTypeUid,
    InstrumentIdTypePositionUid,
}

impl InstrumentIdType {
    pub open spec fn spec_as_u8(self) -> u8 {
        match self {
            InstrumentIdType::InstrumentIdUnspecified => 0,
            InstrumentIdType::InstrumentIdTypeFigi => 1,
            InstrumentIdType::InstrumentIdTypeTicker => 2,
            InstrumentIdType::InstrumentIdTypeUid => 3,
            InstrumentIdType::InstrumentIdTypePositionUid => 4,
        }
    }

    /// The number the kind is sent as.
    pub fn as_u8(&self) -> (r: u8)
        ensures
            r == self.spec_as_u8(),
    {
        match self {
            InstrumentIdType::InstrumentIdUnspecified => 0,
            InstrumentIdType::InstrumentIdTypeFigi => 1,
            InstrumentIdType::InstrumentIdTypeTicker => 2,
            InstrumentIdType::InstrumentIdTypeUid => 3,
            InstrumentIdType::InstrumentIdTypePositionUid => 4,
        }
    }
}

#[derive(Debug)]
pub struct Config {
    pub base_url: String,
    pub path_order_book: String,
    pub path_currency: String,
    pub enabled: bool,
    pub req: GetOrderBookRequest,
}

impl Clone for Config {
    fn clone(&self) -> (r: Self)
        ensures
            r == *self,
    {
        Config {
            base_url: self.base_url.clone(),
            path_order_book: self.path_order_book.clone(),
            path_currency: self.path_currency.clone(),
            enabled: self.enabled,
            req: self.req.clone(),
        }
    }
}

/// The request for the order book: the configured instrument and depth.
pub fn order_book_request(config: &Config) -> (r: GetOrderBookRequest)
    ensures
        r.instrument_id@ == config.req.instrument_id@,
        r.depth == config.req.depth,
{
    GetOrderBookRequest { instrument_id: config.req.instrument_id.clone(), depth: config.req.depth }
}

/// The request for the instrument: its FIGI, on the currency board "CETS".
pub fn currency_request(config: &Config) -> (r: InstrumentRequest)
    ensures
        r.id_type == InstrumentIdType::InstrumentIdTypeFigi,
        r.class_code@ == "CETS"@,
        r.id@ == config.req.instrument_id@,
{
    InstrumentRequest {
        id_type: InstrumentIdType::InstrumentIdTypeFigi,
        class_code: to_owned("CETS"),
        id: config.req.instrument_id.clone(),
    }
}

/// The address of a method: the base address, "/" and the method's path.
pub fn method_url(base_url: &str, url_path: &str) -> (r: String)
    ensures
        r@ == base_url@ + "/"@ + url_path@,
{
    let mut s = to_owned(base_url);
    push_str(&mut s, "/");
    push_str(&mut s, url_path);
    s
}

/// The text of a price: the units, a point and the nanos as an integer.
pub open spec fn spec_price_text(units: Seq<char>, nano: i32) -> Seq<char> {
    units + "."@ + spec_int_text(nano as int)
}

/// The decimal a price's text gives, nothing where it is not one.
pub open spec fn spec_to_decimal(units: Seq<char>, nano: i32) -> Option<Dec> {
    spec_parse_decimal(spec_price_text(units, nano))
}

/// The decimal of a price, read from its units and nanos written one after
/// the other with a point.
pub fn to_decimal(units: &str, nano: i32) -> (r: Result<Dec, ParseDecimalError>)
    ensures
        r is Ok <==> spec_to_decimal(units@, nano) is Some,
        r matches Ok(d) ==> spec_to_decimal(units@, nano) == Some(d),
{
    let mut s = to_owned(units);
    push_str(&mut s, ".");
    let t = int_text(nano as i64);
    push_str(&mut s, t.as_str());
    Dec::from_str(s.as_str())
}

/// `nominal / price` for a positive price: the rate one side of the order
/// book gives; no rate for a price that is not positive; nothing where the
/// division overflows.
pub open spec fn spec_side(nominal: Dec, price: Dec) -> Option<Option<Dec>> {
    if price.m() > 0 {
        match spec_checked_div(nominal, price) {
            Some(x) => Some(Some(x)),
            None => None,
        }
    } else {
        Some(None)
    }
}

/// The rate of one side of the book: none where the side is empty, else that
/// of its first price; `Err` where the price is not a decimal, nothing where
/// the division overflows.
pub open spec fn spec_book_side(nominal: Dec, orders: Seq<Order>) -> Option<Result<Option<Dec>, ParseDecimalError>> {
    if orders.len() == 0 {
        Some(Ok(None))
    } else {
        match spec_to_decimal(orders[0].price.units@, orders[0].price.nano) {
            None => Some(Err(ParseDecimalError)),
            Some(p) => match spec_side(nominal, p) {
                Some(x) => Some(Ok(x)),
                None => None,
            },
        }
    }
}

/// The rouble rate the instrument and its order book give: its nominal
/// divided by the best ask is the buying rate, by the best bid the selling
/// rate; no rate where there is neither. `Err` where a price is not a
/// decimal; nothing where a division overflows.
pub open spec fn spec_collect(currency: CurrencyResponse, book: GetOrderBookResponse) -> Option<
    Result<Seq<RateView>, ParseDecimalError>,
> {
    match spec_to_decimal(currency.instrument.nominal.units@, currency.instrument.nominal.nano) {
        None => Some(Err(ParseDecimalError)),
        Some(nominal) => match spec_book_side(nominal, book.bids@) {
            None => None,
            Some(Err(e)) => Some(Err(e)),
            Some(Ok(sell)) => match spec_book_side(nominal, book.asks@) {
                None => None,
                Some(Err(e)) => Some(Err(e)),
                Some(Ok(buy)) => Some(
                    Ok(
                        if buy is Some || sell is Some {
                            seq![rate_of("RUB"@, "AMD"@, RateType::NoCash, buy, sell)]
                        } else {
                            Seq::empty()
                        },
                    ),
                ),
            },
        },
    }
}

fn book_side(nominal: Dec, orders: &Vec<Order>) -> (r: Option<Result<Option<Dec>, ParseDecimalError>>)
    ensures
        r == spec_book_side(nominal, orders@),
{
    if orders.len() == 0 {
        return Some(Ok(None));
    }
    let price = &orders[0].price;
    match to_decimal(price.units.as_str(), price.nano) {
        Err(e) => Some(Err(e)),
        Ok(p) => {
            if p.is_positive() {
                match nominal.checked_div(&p) {
                    Some(x) => Some(Ok(Some(x))),
                    None => None,
                }
            } else {
                Some(Ok(None))
            }
        },
    }
}

/// The rouble rate the instrument and its order book give; `None` where a
/// division overflows.
pub fn try_collect(currency: &CurrencyResponse, book: &GetOrderBookResponse) -> (r: Option<
    Result<Vec<Rate>, ParseDecimalError>,
>)
    ensures
        r is None <==> spec_collect(*currency, *book) is None,
        r matches Some(Err(e)) ==> spec_collect(*currency, *book) == Some(
            Result::<Seq<RateView>, ParseDecimalError>::Err(e),
        ),
        r matches Some(Ok(v)) ==> spec_collect(*currency, *book) == Some(
            Result::<Seq<RateView>, ParseDecimalError>::Ok(rates_view(v@)),
        ),
{
    let nominal = match to_decimal(
        currency.instrument.nominal.units.as_str(),
        currency.instrument.nominal.nano,
    ) {
        Ok(d) => d,
        Err(e) => return Some(Err(e)),
    };
    let sell = match book_side(nominal, &book.bids) {
        None => return None,
        Some(Err(e)) => return Some(Err(e)),
        Some(Ok(x)) => x,
    };
    let buy = match book_side(nominal, &book.asks) {
        None => return None,
        Some(Err(e)) => return Some(Err(e)),
        Some(Ok(x)) => x,
    };
    let mut rates: Vec<Rate> = Vec::new();
    if buy.is_some() || sell.is_some() {
        rates.push(Rate { from: ModCurrency::rub(), to: ModCurrency::default(), rate_type: RateType::NoCash, buy, sell });
        assert(rates_view(rates@) =~= seq![rate_of("RUB"@, "AMD"@, RateType::NoCash, buy, sell)]);
    } else {
        assert(rates_view(rates@) =~= Seq::<RateView>::empty());
    }
    Some(Ok(rates))
}

/// The rouble rate the instrument and its order book give; `Err` where a
/// price is not a decimal.
pub fn collect(currency: &CurrencyResponse, book: &GetOrderBookResponse) -> (r: Result<Vec<Rate>, ParseDecimalError>)
    requires
        spec_collect(*currency, *book) is Some,
    ensures
        r matches Err(e) ==> spec_collect(*currency, *book) == Some(
            Result::<Seq<RateView>, ParseDecimalError>::Err(e),
        ),
        r matches Ok(v) ==> spec_collect(*currency, *book) == Some(
            Result::<Seq<RateView>, ParseDecimalError>::Ok(rates_view(v@)),
        ),
{
    try_collect(currency, book).unwrap()
}

} // verus!
