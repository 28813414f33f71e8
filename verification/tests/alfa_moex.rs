use am_rate_bot::decimal::Dec;
use am_rate_bot::source::alfa_by::{self, regex_helper};
use am_rate_bot::source::moex::{self, to_decimal};
use am_rate_bot::source::{Currency, Error, RateType};

fn d(s: &str) -> Dec {
    Dec::from_str(s).unwrap()
}

fn text(o: Option<Dec>) -> String {
    o.map(|v| v.normalize().to_string()).unwrap_or_else(|| "-".into())
}

fn vr(title: &str, purchase: &str, sell: &str) -> alfa_by::ValueRate {
    alfa_by::ValueRate {
        title: title.to_string(),
        purchase: alfa_by::RateValue { value: d(purchase) },
        sell: alfa_by::RateValue { value: d(sell) },
    }
}

#[test]
fn alfa_by_titles_name_units_and_currency() {
    let (amount, cur) = regex_helper("100 российских рублей (RUB)").unwrap();
    assert_eq!(amount.to_string(), "100");
    assert_eq!(cur, Currency::rub());
    assert!(regex_helper("доллар США").is_none());
}

#[test]
fn alfa_by_rates_with_commission() {
    let resp = alfa_by::Response {
        initial_items: vec![alfa_by::Item {
            currencies_data: vec![alfa_by::CurrencyData {
                value: alfa_by::Value {
                    exchange_rate: vec![
                        vr("100 российских рублей (RUB)", "3.5", "3.7"),
                        vr("1 доллар США (USD)", "3.2", "3.3"),
                        vr("10 польских злотых (PLN)", "8", "9"),
                    ],
                    conversion_rate: Some(vec![vr("USD/RUB", "90", "95"), vr("EUR/USD", "1", "1.1"), vr("plain", "1", "1")]),
                },
            }],
        }],
    };
    let cfg = alfa_by::Config { rates_url: "u".into(), enabled: true, commission_rate: d("1") };
    let rates = alfa_by::collect(&resp, &cfg).unwrap();
    assert_eq!(rates.len(), 3);
    assert_eq!(rates[0].from, Currency::rub());
    assert_eq!(rates[0].to, Currency::new("BYN"));
    assert_eq!(text(rates[0].buy), "0.035");
    assert_eq!(text(rates[0].sell), "-");
    assert_eq!(text(rates[1].sell), "3.333");
    assert_eq!(rates[2].from, Currency::usd());
    assert_eq!(rates[2].to, Currency::rub());
    assert_eq!(text(rates[2].sell), "95.95");
    assert_eq!(rates[2].rate_type, RateType::NoCash);
    let empty = alfa_by::Response { initial_items: vec![] };
    assert_eq!(alfa_by::collect(&empty, &cfg).err(), Some(Error::NoRates));
}

#[test]
fn moex_prices_are_units_point_nanos() {
    assert_eq!(to_decimal("12", 5).unwrap().to_string(), "12.5");
    assert_eq!(to_decimal("0", 250000000).unwrap().to_string(), "0.250000000");
    assert!(to_decimal("1", -5).is_err());
    assert_eq!(moex::method_url("https://api", "path/Method"), "https://api/path/Method");
}

fn order(units: &str, nano: i32) -> moex::Order {
    moex::Order { price: moex::Quotation { units: units.to_string(), nano } }
}

#[test]
fn moex_rate_is_the_nominal_over_the_best_prices() {
    let currency = moex::CurrencyResponse {
        instrument: moex::Currency { nominal: moex::MoneyValue { units: "1".into(), nano: 0 } },
    };
    let book = moex::GetOrderBookResponse { bids: vec![order("80", 0)], asks: vec![order("100", 0)] };
    let rates = moex::collect(&currency, &book).unwrap();
    assert_eq!(rates.len(), 1);
    assert_eq!(rates[0].from, Currency::rub());
    assert_eq!(text(rates[0].buy), "0.01");
    assert_eq!(text(rates[0].sell), "0.0125");
    let empty = moex::GetOrderBookResponse { bids: vec![], asks: vec![] };
    assert_eq!(moex::collect(&currency, &empty).unwrap().len(), 0);
    let cfg = moex::Config {
        base_url: "b".into(),
        path_order_book: "o".into(),
        path_currency: "c".into(),
        enabled: true,
        req: moex::GetOrderBookRequest { depth: 1, instrument_id: "BBG0013HGFT4".into() },
    };
    let req = moex::currency_request(&cfg);
    assert_eq!(req.id_type.as_u8(), 1);
    assert_eq!(req.class_code, "CETS");
    assert_eq!(moex::order_book_request(&cfg).instrument_id, "BBG0013HGFT4");
}
