use am_rate_bot::config::Gen;
use am_rate_bot::decimal::Dec;
use am_rate_bot::generate::{conv_table, src_table, try_conv_table};
use am_rate_bot::source::{Currency, Rate, RateType, Source, SourceRates};

fn d(s: &str) -> Dec {
    Dec::from_str(s).unwrap()
}

fn usd(buy: &str, sell: &str, rate_type: RateType) -> Rate {
    Rate { from: Currency::usd(), to: Currency::default(), rate_type, buy: Some(d(buy)), sell: Some(d(sell)) }
}

fn two_banks() -> SourceRates {
    let mut sr = SourceRates::new();
    sr.insert(Source::Acba, vec![usd("385", "390", RateType::NoCash)]);
    sr.insert(Source::Ineco, vec![usd("386", "391", RateType::NoCash)]);
    sr
}

const GEN: Gen = Gen { rate_dp: 4, diff_dp: 2 };

#[test]
fn conversion_table_lists_the_best_rate_first() {
    let t = conv_table(Currency::default(), Currency::usd(), &two_banks(), RateType::NoCash, false, &GEN);
    assert_eq!(t, "* Acba  | 0.0026 |     0 | AMD/USD\n* Ineco | 0.0026 | -0.26 | AMD/USD\n");
}

#[test]
fn inverted_table_lists_the_cheapest_first() {
    let t = conv_table(Currency::default(), Currency::usd(), &two_banks(), RateType::NoCash, true, &GEN);
    assert_eq!(t, "* Acba  | 390 |     0 | AMD/USD\n* Ineco | 391 | -0.26 | AMD/USD\n");
}

#[test]
fn direct_table_from_usd() {
    let t = conv_table(Currency::usd(), Currency::default(), &two_banks(), RateType::NoCash, false, &GEN);
    assert_eq!(t, "* Ineco | 386 |     0 | USD/AMD\n* Acba  | 385 | -0.26 | USD/AMD\n");
}

#[test]
fn conversion_table_is_empty_without_a_currency_or_a_path() {
    assert_eq!(try_conv_table(Currency::new(""), Currency::usd(), &two_banks(), RateType::NoCash, false, &GEN), Some(String::new()));
    assert_eq!(conv_table(Currency::default(), Currency::new("GEL"), &two_banks(), RateType::NoCash, false, &GEN), "");
    assert_eq!(conv_table(Currency::default(), Currency::usd(), &two_banks(), RateType::Cash, false, &GEN), "");
}

#[test]
fn source_table_lists_rates_of_the_asked_type() {
    let mut sr = SourceRates::new();
    sr.insert(Source::Acba, vec![usd("385", "390", RateType::NoCash), usd("384.5", "390.5", RateType::Cash)]);
    assert_eq!(src_table(Source::Acba, &sr, RateType::NoCash, &GEN), "385 | 390 | USD/AMD\n");
    assert_eq!(src_table(Source::Acba, &sr, RateType::Cash, &GEN), "384.5 | 390.5 | USD/AMD\n");
    assert_eq!(src_table(Source::Ineco, &sr, RateType::Cash, &GEN), "");
}
