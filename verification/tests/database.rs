use am_rate_bot::database::{Cache, Data};
use am_rate_bot::source::{Currency, Rate, RateType, Source};

#[test]
fn cache_keys_name_the_request() {
    let cache = Cache::new();
    assert_eq!(cache.format_src_key(Source::IdBank, RateType::Cash), "idbank_1");
    assert_eq!(cache.format_conv_key(Currency::usd(), Currency::new("rub"), RateType::NoCash, true), "usd_RUB_0_1");
    assert_eq!(Cache::KEY_SEP, "_");
}

#[test]
fn cache_reads_back_what_was_stored_until_cleared() {
    let mut cache = Cache::new();
    cache.add_src(Source::Acba, RateType::NoCash, "table".to_string());
    cache.add_conv(Currency::usd(), Currency::eur(), RateType::Cash, false, "conv".to_string());
    assert_eq!(cache.get_src(Source::Acba, RateType::NoCash), Some("table".to_string()));
    assert_eq!(cache.get_src(Source::Acba, RateType::Cash), None);
    assert_eq!(cache.get_conv(Currency::usd(), Currency::eur(), RateType::Cash, false), Some("conv".to_string()));
    assert_eq!(cache.get_conv(Currency::eur(), Currency::usd(), RateType::Cash, false), None);
    cache.add_src(Source::Acba, RateType::NoCash, "newer".to_string());
    assert_eq!(cache.get_src(Source::Acba, RateType::NoCash), Some("newer".to_string()));
    cache.clear();
    assert_eq!(cache.get_src(Source::Acba, RateType::NoCash), None);
    assert_eq!(cache.get_conv(Currency::usd(), Currency::eur(), RateType::Cash, false), None);
}

#[test]
fn data_keeps_the_latest_rates_of_each_source() {
    let mut data = Data::new();
    let r = |b: i64| Rate { from: Currency::usd(), to: Currency::default(), rate_type: RateType::Cash, buy: Some(am_rate_bot::decimal::Dec::new(b, 0)), sell: None };
    let t1 = std::time::SystemTime::UNIX_EPOCH + std::time::Duration::from_secs(1_700_000_000);
    let t2 = t1 + std::time::Duration::from_secs(300);
    data.set_rates(Source::Fast, vec![r(1)], t1);
    assert_eq!(data.get_updated_at(), t1);
    data.set_rates(Source::Fast, vec![r(2), r(3)], t2);
    let rates = data.get_rates();
    assert_eq!(rates.get(Source::Fast).unwrap().len(), 2);
    assert!(rates.get(Source::Acba).is_none());
    assert_eq!(data.get_updated_at(), t2);
}

#[test]
fn source_tables_of_different_sources_do_not_collide() {
    let mut cache = Cache::new();
    assert_eq!(cache.format_src_key(Source::ArmSwiss, RateType::Card), "armswiss_2");
    for (i, src) in Source::iter().iter().enumerate() {
        cache.add_src(*src, RateType::NoCash, format!("t{}", i));
    }
    for (i, src) in Source::iter().iter().enumerate() {
        assert_eq!(cache.get_src(*src, RateType::NoCash), Some(format!("t{}", i)));
        assert_eq!(cache.get_src(*src, RateType::Cash), None);
    }
}
