use am_rate_bot::decimal::Dec;
use am_rate_bot::graph::{build, find_all_paths};
use am_rate_bot::source::{acba, Currency, RateType};
use serde_json::Value;

const ACBA_DATA: &str = r#"{
      "Description": null,
      "ResultCode": 1,
      "Result": {
        "rates": {
          "last_update_date": "2024-09-16T16:07:00+04:00",
          "cash": [
            {
              "Buy": "384.5",
              "Sell": "390.5",
              "CB": "387.19",
              "Currency": "USD"
            },
            {
              "Buy": "425",
              "Sell": "437",
              "CB": "430.63",
              "Currency": "EUR"
            },
            {
              "Buy": "4.21",
              "Sell": "4.44",
              "CB": "4.25",
              "Currency": "RUR"
            },
            {
              "Buy": "499",
              "Sell": "519",
              "CB": "510.82",
              "Currency": "GBP"
            },
            {
              "Buy": "448",
              "Sell": "468",
              "CB": "458.38",
              "Currency": "CHF"
            },
            {
              "Buy": "140",
              "Sell": "160",
              "CB": "143.75",
              "Currency": "GEL"
            }
          ],
          "non_cash": [
            {
              "Buy": "384",
              "Sell": "390",
              "CB": "387.19",
              "Currency": "USD"
            },
            {
              "Buy": "425",
              "Sell": "437",
              "CB": "430.63",
              "Currency": "EUR"
            },
            {
              "Buy": "4.21",
              "Sell": "4.44",
              "CB": "4.25",
              "Currency": "RUR"
            },
            {
              "Buy": "499",
              "Sell": "519",
              "CB": "510.82",
              "Currency": "GBP"
            },
            {
              "Buy": "448",
              "Sell": "468",
              "CB": "458.38",
              "Currency": "CHF"
            },
            {
              "Buy": "140",
              "Sell": "160",
              "CB": "143.75",
              "Currency": "GEL"
            }
          ],
          "card": [
            {
              "Buy": "384",
              "Sell": "390.5",
              "CB": "387.19",
              "Currency": "USD"
            },
            {
              "Buy": "425",
              "Sell": "437",
              "CB": "430.63",
              "Currency": "EUR"
            },
            {
              "Buy": "4.21",
              "Sell": "4.44",
              "CB": "4.25",
              "Currency": "RUR"
            },
            {
              "Buy": "499",
              "Sell": "519",
              "CB": "510.82",
              "Currency": "GBP"
            },
            {
              "Buy": "448",
              "Sell": "468",
              "CB": "458.38",
              "Currency": "CHF"
            },
            {
              "Buy": "140",
              "Sell": "160",
              "CB": "143.75",
              "Currency": "GEL"
            }
          ],
          "cross": [
            {
              "Buy": "1.0883483",
              "Sell": "1.1380208",
              "Currency": "EUR/USD"
            },
            {
              "Buy": "86.4864865",
              "Sell": "92.7553444",
              "Currency": "USD/RUR"
            },
            {
              "Buy": "1.2778489",
              "Sell": "1.3515625",
              "Currency": "GBP/USD"
            },
            {
              "Buy": "0.8205128",
              "Sell": "0.8716518",
              "Currency": "USD/CHF"
            },
            {
              "Buy": "95.7207207",
              "Sell": "103.8004751",
              "Currency": "EUR/RUR"
            },
            {
              "Buy": "0.9081197",
              "Sell": "0.9754464",
              "Currency": "EUR/CHF"
            },
            {
              "Buy": "0.8188825",
              "Sell": "0.8757515",
              "Currency": "EUR/GBP"
            }
          ],
          "currencies": [
            {
              "Key": "AMD",
              "Value": "AMD"
            },
            {
              "Key": "USD",
              "Value": "USD"
            },
            {
              "Key": "EUR",
              "Value": "EUR"
            },
            {
              "Key": "RUR",
              "Value": "RUR"
            },
            {
              "Key": "GBP",
              "Value": "GBP"
            },
            {
              "Key": "CHF",
              "Value": "CHF"
            },
            {
              "Key": "GEL",
              "Value": "GEL"
            }
          ]
        }
      },
      "ResultCodeDescription": "normal"
    }"#;

fn dec(v: &Value) -> Dec {
    Dec::from_str(v.as_str().unwrap()).unwrap()
}

fn simple_rates(v: &Value) -> Vec<acba::Rate> {
    v.as_array()
        .unwrap()
        .iter()
        .map(|r| acba::Rate {
            buy: dec(&r["Buy"]),
            sell: dec(&r["Sell"]),
            currency: Currency::new(r["Currency"].as_str().unwrap()),
        })
        .collect()
}

fn cross_rates(v: &Value) -> Vec<acba::CrossRate> {
    v.as_array()
        .unwrap()
        .iter()
        .map(|r| acba::CrossRate {
            buy: dec(&r["Buy"]),
            sell: dec(&r["Sell"]),
            currency: r["Currency"].as_str().unwrap().to_string(),
        })
        .collect()
}

fn acba_response(data: &str) -> acba::Response {
    let v: Value = serde_json::from_str(data).unwrap();
    let rates = &v["Result"]["rates"];
    acba::Response {
        result: acba::Result {
            rates: acba::Rates {
                cash: simple_rates(&rates["cash"]),
                non_cash: simple_rates(&rates["non_cash"]),
                cross: cross_rates(&rates["cross"]),
            },
        },
    }
}

fn get_conversations() -> Vec<(Currency, Currency)> {
    vec![
        (Currency::default(), Currency::usd()),
        (Currency::default(), Currency::eur()),
        (Currency::rub(), Currency::default()),
        (Currency::rub(), Currency::usd()),
        (Currency::rub(), Currency::eur()),
        (Currency::usd(), Currency::eur()),
    ]
}

#[test]
fn graph_test_graph() {
    let resp = acba_response(ACBA_DATA);
    let rates = acba::parse(resp);
    let graph = build(&rates, RateType::NoCash);
    for (from, to) in &get_conversations() {
        let _ = find_all_paths(&graph, from, to);
    }
}
