use am_rate_bot::collector::accepted_rates;
use am_rate_bot::decimal::Dec;
use am_rate_bot::graph::{arbitrage_graph, build, find_all_paths};
use am_rate_bot::source::lsoft::{self, request};
use am_rate_bot::source::{Currency, Rate, RateType};
use am_rate_bot::sources;

fn d(s: &str) -> Dec {
    Dec::from_str(s).unwrap()
}

fn rate(from: &str, to: &str, buy: Option<&str>, sell: Option<&str>) -> Rate {
    Rate { from: Currency::new(from), to: Currency::new(to), rate_type: RateType::NoCash, buy: buy.map(d), sell: sell.map(d) }
}

#[test]
fn lsoft_request_keeps_only_the_id() {
    let mut req = request::Request::default();
    req.id = "42".to_string();
    req.client = "ignored".to_string();
    let body = lsoft::request_body(&req);
    assert_eq!(body.client, "mobile");
    assert_eq!(body.device, "android");
    assert_eq!(body.handler, "aphena");
    assert_eq!(body.lang, "1");
    assert_eq!(body.operation, "getCurrencyList");
    assert_eq!(body.id, "42");
    assert_eq!(body.userid, "");
}

#[test]
fn central_bank_request_names_its_namespaces() {
    let req = sources::cb_am::soap_request();
    assert_eq!(req.xmlns_soap12, "http://www.w3.org/2003/05/soap-envelope");
    assert_eq!(req.soap12_body.exchange_rates_latest.xmlns, "http://www.cba.am/");
}

#[test]
fn collector_drops_sources_without_usable_rates() {
    assert!(accepted_rates(&vec![rate("USD", "AMD", Some("0"), None)]).is_none());
    let kept = accepted_rates(&vec![rate("USD", "AMD", Some("390"), None), rate("EUR", "", Some("1"), None)]).unwrap();
    assert_eq!(kept.len(), 1);
}

#[test]
fn paths_follow_rates_and_multiply_them() {
    let rates = vec![rate("USD", "AMD", Some("390"), Some("395")), rate("EUR", "USD", Some("1.1"), None)];
    let g = build(&rates, RateType::NoCash);
    let paths = find_all_paths(&g, &Currency::eur(), &Currency::default());
    assert_eq!(paths.len(), 1);
    let codes: Vec<String> = paths[0].0.iter().map(|c| c.to_string()).collect();
    assert_eq!(codes, vec!["EUR", "USD", "AMD"]);
    assert_eq!(paths[0].1.normalize().to_string(), "429");
    assert_eq!(find_all_paths(&g, &Currency::default(), &Currency::eur()).len(), 0);
}

#[test]
fn arbitrage_graph_numbers_currencies_in_order() {
    let rates = vec![rate("USD", "EUR", Some("0.8"), Some("0.5")), rate("EUR", "CHF", Some("0.9"), None)];
    let g = arbitrage_graph(&rates, RateType::NoCash);
    let codes: Vec<String> = g.currencies.iter().map(|c| c.to_string()).collect();
    assert_eq!(codes, vec!["USD", "EUR", "CHF"]);
    assert_eq!(g.edges.len(), 3);
    assert_eq!((g.edges[0].0, g.edges[0].1), (0, 1));
    assert_eq!((g.edges[1].0, g.edges[1].1, g.edges[1].2.normalize().to_string()), (1, 0, "2".to_string()));
    assert_eq!((g.edges[2].0, g.edges[2].1), (1, 2));
    assert!(arbitrage_graph(&rates, RateType::Cash).currencies.is_empty());
}

#[test]
fn currency_codes_read_again_are_unchanged() {
    for s in [" rur ", "usd", " eUr", "xrurrur ", "a b", ""] {
        let c = am_rate_bot::source::Currency::new(s);
        assert_eq!(am_rate_bot::source::Currency::new(&c.to_string()), c);
    }
}
