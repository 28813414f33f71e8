use am_rate_bot::decimal::Dec;
use am_rate_bot::source::{
    armswiss, avosend, filter_rates, hsbc, idbank, idpay, ineco, kwikpay, less_percent, mir, percent, plus_percent,
    rate_type_url, sas, try_percent, unionpay, Currency, Error, ParseError, Rate, RateType, Source, SourceRates,
};
use am_rate_bot::sources;

fn d(s: &str) -> Dec {
    Dec::from_str(s).unwrap()
}

fn text(o: Option<Dec>) -> String {
    o.map(|v| v.normalize().to_string()).unwrap_or_else(|| "-".into())
}

fn rate(from: &str, to: &str, rate_type: RateType, buy: Option<&str>, sell: Option<&str>) -> Rate {
    Rate { from: Currency::new(from), to: Currency::new(to), rate_type, buy: buy.map(d), sell: sell.map(d) }
}

#[test]
fn source_prefix_marks_the_central_bank_banks_and_others() {
    assert_eq!(Source::Cb.prefix(), "@");
    assert_eq!(Source::Acba.prefix(), "*");
    assert_eq!(Source::Mir.prefix(), "#");
    assert_eq!(Source::AlfaBy.prefix(), "#");
    assert!(Source::Ineco.is_local_bank());
    assert!(!Source::MoEx.is_local_bank());
    assert!(Source::AlfaBy.is_remove_extra_conv());
    assert!(Source::HSBC.is_remove_extra_conv());
    assert!(!Source::SAS.is_remove_extra_conv());
}

#[test]
fn source_names_parse_back_ignoring_case() {
    for src in Source::iter() {
        assert_eq!(Source::from_str(src.name()), Ok(src));
        assert_eq!(Source::from_str(&src.name().to_uppercase()), Ok(src));
    }
    assert_eq!(Source::from_str("idbank"), Ok(Source::IdBank));
    assert_eq!(Source::from_str("nope"), Err(ParseError::VariantNotFound));
    assert_eq!(Source::iter().len(), Source::COUNT);
    assert_eq!(Source::AlfaBy.index(), 25);
    assert_eq!(Source::HSBC.to_string(), "HSBC");
}

#[test]
fn old_sources_prefix_and_banks() {
    assert_eq!(sources::Source::CbAm.prefix(), "@");
    assert_eq!(sources::Source::AlfaBy.prefix(), "@");
    assert_eq!(sources::Source::Acba.prefix(), "*");
    assert_eq!(sources::Source::Unistream.prefix(), "#");
    assert!(!sources::Source::Mir.is_bank());
    assert!(sources::Source::Fast.is_bank());
    assert_eq!(sources::Error::Html.message(), "html parse error");
}

#[test]
fn currency_codes_are_trimmed_upper_case_and_rur_is_rub() {
    assert_eq!(Currency::new("  usd "), Currency::usd());
    assert_eq!(Currency::new("rur"), Currency::rub());
    assert_eq!(Currency::new("RURRUR").to_string(), "RUBRUB");
    assert_eq!(Currency::default().to_string(), "AMD");
    assert!(Currency::new("   ").is_empty());
    assert!(Currency::eur().same(&Currency::new("eur")));
}

#[test]
fn rate_types_parse_from_their_names() {
    assert_eq!(RateType::from_str("no cash"), Ok(RateType::NoCash));
    assert_eq!(RateType::from_str("NON_CASH"), Ok(RateType::NoCash));
    assert_eq!(RateType::from_str("nocash"), Ok(RateType::NoCash));
    assert_eq!(RateType::from_str("cash"), Ok(RateType::Cash));
    assert_eq!(RateType::from_str("CARD"), Ok(RateType::Card));
    assert_eq!(RateType::from_str("online"), Ok(RateType::Online));
    assert_eq!(RateType::from_str("cb"), Ok(RateType::Cb));
    assert_eq!(RateType::from_str("wire"), Err(ParseError::VariantNotFound));
    assert_eq!(RateType::Online.as_u8(), 3);
}

#[test]
fn rate_type_url_appends_the_number_of_transfer_and_cash_rates_only() {
    assert_eq!(rate_type_url("https://x/?type=", RateType::NoCash), Ok("https://x/?type=0".to_string()));
    assert_eq!(rate_type_url("https://x/?type=", RateType::Cash), Ok("https://x/?type=1".to_string()));
    assert_eq!(rate_type_url("u", RateType::Card), Err(Error::InvalidRateType));
    assert_eq!(Error::NoRates.message(), "no rates found");
}

#[test]
fn filter_keeps_named_rates_with_a_positive_side() {
    let rates = vec![
        rate("USD", "AMD", RateType::Cash, Some("390"), Some("395")),
        rate("", "AMD", RateType::Cash, Some("1"), Some("1")),
        rate("EUR", "AMD", RateType::Cash, Some("0"), None),
        rate("GEL", "AMD", RateType::Cash, None, Some("150")),
    ];
    let kept = filter_rates(&rates);
    assert_eq!(kept.len(), 2);
    assert_eq!(kept[0].from, Currency::usd());
    assert_eq!(kept[1].from, Currency::new("GEL"));
}

#[test]
fn source_rates_hold_one_list_per_source() {
    let mut sr = SourceRates::new();
    assert_eq!(sr.slot_count(), Source::COUNT);
    assert!(sr.get(Source::Acba).is_none());
    sr.insert(Source::Acba, vec![rate("USD", "AMD", RateType::Cash, Some("1"), None)]);
    assert_eq!(sr.get(Source::Acba).unwrap().len(), 1);
    assert!(sr.get(Source::Ineco).is_none());
    let copy = sr.clone_all();
    assert_eq!(copy.get(Source::Acba).unwrap().len(), 1);
}

#[test]
fn percent_of_a_value() {
    assert_eq!(percent(d("2"), d("400")).normalize().to_string(), "8");
    assert_eq!(text(try_percent(d("1.5"), d("200"))), "3");
    assert_eq!(text(less_percent(d("400"), d("2"))), "392");
    assert_eq!(text(plus_percent(d("400"), d("2"))), "408");
}

#[test]
fn ineco_gives_a_transfer_and_a_cash_rate_per_item() {
    let resp = ineco::Response {
        items: vec![ineco::Item {
            code: Currency::new("usd"),
            cash: ineco::Rate { buy: Some(d("385")), sell: Some(d("392")) },
            cashless: ineco::Rate { buy: Some(d("386")), sell: None },
        }],
    };
    let rates = ineco::parse(&resp);
    assert_eq!(rates.len(), 2);
    assert_eq!(rates[0].rate_type, RateType::NoCash);
    assert_eq!(text(rates[0].buy), "386");
    assert_eq!(text(rates[0].sell), "-");
    assert_eq!(rates[1].rate_type, RateType::Cash);
    assert_eq!(text(rates[1].sell), "392");
    assert_eq!(rates[1].to, Currency::default());
}

#[test]
fn mir_inverts_the_dram_entry_or_reports_no_rates() {
    let entry = |code: &str, buy: &str, sell: &str| mir::Content {
        currency: mir::Currency { strcode: Currency::new(code) },
        value_buy: d(buy),
        value_sell: d(sell),
    };
    let resp = mir::Response { content: vec![entry("USD", "1", "1"), entry("AMD", "0.2", "0.25")] };
    let rates = mir::parse(&resp).unwrap();
    assert_eq!(rates.len(), 2);
    assert_eq!(rates[0].from, Currency::rub());
    assert_eq!(text(rates[0].buy), "4");
    assert_eq!(text(rates[0].sell), "5");
    let none = mir::Response { content: vec![entry("USD", "1", "1")] };
    assert_eq!(mir::parse(&none).err(), Some(Error::NoRates));
    let zero = mir::Response { content: vec![entry("AMD", "0", "0.5")] };
    let rates = mir::parse(&zero).unwrap();
    assert_eq!(text(rates[0].buy), "2");
    assert_eq!(text(rates[0].sell), "-");
}

#[test]
fn unionpay_takes_the_dollar_in_roubles() {
    let entry = |t: &str, b: &str, r: &str| unionpay::ExchangeRate {
        trans_cur: Currency::new(t),
        base_cur: Currency::new(b),
        rate_data: d(r),
    };
    let resp = unionpay::Response { exchange_rate_json: vec![entry("EUR", "USD", "1"), entry("RUB", "USD", "0.0125")] };
    let rates = unionpay::parse(&resp).unwrap();
    assert_eq!(rates[0].from, Currency::usd());
    assert_eq!(rates[0].to, Currency::rub());
    assert_eq!(text(rates[0].buy), "80");
    let empty = unionpay::Response { exchange_rate_json: vec![] };
    assert_eq!(unionpay::parse(&empty).err(), Some(Error::NoRates));
}

#[test]
fn unionpay_asks_for_the_last_working_day() {
    let url = "https://x/%s.json";
    assert_eq!(unionpay::rates_url(url, 2024, 9, 14).unwrap(), "https://x/20240913.json");
    assert_eq!(unionpay::rates_url(url, 2024, 9, 15).unwrap(), "https://x/20240913.json");
    assert_eq!(unionpay::rates_url(url, 2024, 9, 16).unwrap(), "https://x/20240916.json");
    assert_eq!(unionpay::report_date(2024, 3, 2), Some((2024, 3, 1)));
    assert!(unionpay::rates_url(url, 2024, 2, 30).is_none());
}

#[test]
fn sas_reads_cash_rates_from_rows_after_the_header() {
    let row = |cells: &[&str]| cells.iter().map(|c| c.to_string()).collect::<Vec<_>>();
    let rows = vec![row(&["Currency", "Buy", "Sell"]), row(&[" usd ", " 390.5 ", "396"]), row(&["EUR", "-", "430"])];
    let rates = sas::parse(&rows).unwrap();
    assert_eq!(rates.len(), 2);
    assert_eq!(rates[0].from, Currency::usd());
    assert_eq!(rates[0].rate_type, RateType::Cash);
    assert_eq!(text(rates[0].buy), "390.5");
    assert_eq!(text(rates[1].buy), "-");
    let short = vec![row(&["h"]), row(&["USD", "1"])];
    assert_eq!(sas::parse(&short).err(), Some(Error::Html));
}

#[test]
fn hsbc_reads_transfer_and_cash_rates_per_row() {
    let row = |cells: &[&str]| cells.iter().map(|c| c.to_string()).collect::<Vec<_>>();
    let rows = vec![row(&["USD", "388", "394", "387", "395"])];
    let rates = hsbc::parse(&rows).unwrap();
    assert_eq!(rates.len(), 2);
    assert_eq!(rates[0].rate_type, RateType::NoCash);
    assert_eq!(text(rates[1].buy), "387");
    assert_eq!(hsbc::parse(&vec![row(&["USD", "388"])]).err(), Some(Error::Html));
}

#[test]
fn armswiss_divides_by_the_named_units() {
    let entry = |iso: &str| armswiss::LmasbRate {
        iso: iso.to_string(),
        bid: d("270"),
        offer: d("280"),
        bid_cash: d("260"),
        offer_cash: d("290"),
    };
    let resp = armswiss::Response { lmasbrate: vec![entry("JPY 100"), entry("USD"), entry(""), entry("XAU oz")] };
    let rates = armswiss::try_parse(&resp).unwrap();
    assert_eq!(rates.len(), 4);
    assert_eq!(rates[0].from, Currency::new("JPY"));
    assert_eq!(text(rates[0].buy), "2.7");
    assert_eq!(text(rates[1].buy), "2.6");
    assert_eq!(text(rates[2].buy), "270");
    assert_eq!(rates[3].rate_type, RateType::Cash);
    let zero = armswiss::Response { lmasbrate: vec![entry("JPY 0")] };
    assert!(armswiss::try_parse(&zero).is_none());
}

#[test]
fn kwikpay_takes_the_cash_rouble_rate_less_commission() {
    let cfg = kwikpay::Config { rates_url: "u".into(), enabled: true, commission_rate: d("1") };
    let rates = vec![
        rate("RUB", "AMD", RateType::NoCash, Some("4.9"), None),
        rate("RUB", "AMD", RateType::Cash, Some("5"), Some("5.2")),
    ];
    let out = kwikpay::parse(&rates, &cfg).unwrap();
    assert_eq!(out.len(), 1);
    assert_eq!(text(out[0].buy), "4.95");
    let none = vec![rate("RUB", "AMD", RateType::Cash, None, Some("5.2"))];
    assert_eq!(kwikpay::try_parse(&none, &cfg).unwrap().err(), Some(Error::NoRates));
}

#[test]
fn idpay_applies_the_commissions_to_idbank_rates() {
    let cr = |iso: &str| idbank::CurrencyRate {
        buy: Some(d("5")),
        cards_buy: String::new(),
        cards_sell: String::new(),
        csh_buy: None,
        csh_buy_trf: None,
        csh_sell: None,
        csh_sell_trf: Some(d("4")),
        iso_txt: Currency::new(iso),
        sell: Some(d("6")),
    };
    let resp = idbank::Response { result: idbank::Result { currency_rate: vec![cr("USD"), cr("RUB")] } };
    let cfg = idpay::Config {
        rates_url: "u".into(),
        enabled: true,
        commission_rate: d("2"),
        commission_rate_to_ru_card: d("1"),
    };
    let out = idpay::parse(&resp, &cfg).unwrap();
    assert_eq!(out.len(), 2);
    assert_eq!(text(out[0].buy), "4.9");
    assert_eq!(text(out[0].sell), "6.18");
    assert_eq!(text(out[1].buy), "3.92");
    assert_eq!(text(out[1].sell), "-");
    let no_rub = idbank::Response { result: idbank::Result { currency_rate: vec![cr("USD")] } };
    assert_eq!(idpay::parse(&no_rub, &cfg).err(), Some(Error::NoRates));
}

#[test]
fn avosend_json_follows_the_script() {
    assert_eq!(avosend::json_text("<script>x</script>  {\"convertRate\":5}\n"), "{\"convertRate\":5}");
    assert_eq!(avosend::json_text(" {} "), "{}");
    let rates = avosend::parse(&avosend::Response { convert_rate: d("4.8") });
    assert_eq!(rates.len(), 1);
    assert_eq!(rates[0].from, Currency::rub());
    assert_eq!(text(rates[0].buy), "4.8");
}

#[test]
fn idbank_gives_transfer_then_cash_rates() {
    let c = idbank::CurrencyRate {
        buy: Some(d("386")),
        cards_buy: String::new(),
        cards_sell: String::new(),
        csh_buy: Some(d("385")),
        csh_buy_trf: None,
        csh_sell: Some(d("393")),
        csh_sell_trf: None,
        iso_txt: Currency::new("USD"),
        sell: Some(d("391")),
    };
    let rates = idbank::parse(&idbank::Response { result: idbank::Result { currency_rate: vec![c] } });
    assert_eq!(rates.len(), 2);
    assert_eq!(text(rates[0].sell), "391");
    assert_eq!(text(rates[1].buy), "385");
}
