use am_rate_bot::bot::{action, conv_replies, info_text, parse_conv, sources_list, src_reply, start_action, Action, Command};
use am_rate_bot::config::Gen;
use am_rate_bot::database::Cache;
use am_rate_bot::decimal::Dec;
use am_rate_bot::source::{Currency, Rate, RateType, Source, SourceRates};
use am_rate_bot::DUNNO;

fn d(s: &str) -> Dec {
    Dec::from_str(s).unwrap()
}

fn conv(a: Action) -> (String, String, RateType, bool) {
    match a {
        Action::Conv { from, to, rate_type, inv } => (from.to_string(), to.to_string(), rate_type, inv),
        other => panic!("not a conversion: {:?}", other),
    }
}

#[test]
fn commands_ask_for_conversions_and_tables() {
    assert_eq!(conv(action(&Command::Usd)), ("AMD".into(), "USD".into(), RateType::NoCash, false));
    assert_eq!(conv(action(&Command::RubCash)), ("RUB".into(), "AMD".into(), RateType::Cash, true));
    assert_eq!(conv(action(&Command::GelCash)), ("AMD".into(), "GEL".into(), RateType::Cash, false));
    assert_eq!(conv(action(&Command::UsdEur)), ("USD".into(), "EUR".into(), RateType::NoCash, false));
    let c = Command::ConvCash { from: Currency::usd(), to: Currency::default() };
    assert_eq!(conv(action(&c)), ("USD".into(), "AMD".into(), RateType::Cash, true));
    assert!(matches!(action(&Command::GetCard { src: Source::Acba }), Action::Src { src: Source::Acba, rate_type: RateType::Card }));
    assert!(matches!(action(&Command::List), Action::List));
    assert!(matches!(action(&Command::Help), Action::Help));
    assert!(matches!(action(&Command::Start(String::new())), Action::Welcome));
}

#[test]
fn start_parameters_name_a_source_or_currencies_and_a_rate_type() {
    assert!(matches!(start_action("acba:cash"), Action::Src { src: Source::Acba, rate_type: RateType::Cash }));
    assert!(matches!(start_action("ineco"), Action::Src { src: Source::Ineco, rate_type: RateType::NoCash }));
    assert_eq!(conv(start_action("usd")), ("AMD".into(), "USD".into(), RateType::NoCash, false));
    assert_eq!(conv(start_action("rub/amd:cash")), ("RUB".into(), "AMD".into(), RateType::Cash, true));
    assert_eq!(conv(start_action("eur usd:bogus")), ("EUR".into(), "USD".into(), RateType::NoCash, false));
}

#[test]
fn conversion_text_is_a_pair_or_a_target() {
    let (a, b) = parse_conv("usd/rur");
    assert_eq!((a.to_string(), b.to_string()), ("USD".into(), "RUB".into()));
    let (a, b) = parse_conv(" eur  gel ");
    assert_eq!((a.to_string(), b.to_string()), ("EUR".into(), "GEL".into()));
    let (a, b) = parse_conv("chf");
    assert_eq!((a.to_string(), b.to_string()), ("AMD".into(), "CHF".into()));
}

#[test]
fn sources_list_is_sorted_lower_case() {
    let list = sources_list();
    let mut names: Vec<String> = Source::iter().iter().map(|s| s.name().to_lowercase()).collect();
    names.sort();
    assert_eq!(list, names.join(", "));
    assert!(list.starts_with("acba, aeb, alfaby, ameria"));
}

#[test]
fn info_lists_version_interval_and_update() {
    assert_eq!(info_text("1.2.3", 300, "2024-01-01"), "version: 1.2.3\nupdate_interval: 300\nupdated_at: 2024-01-01");
}

fn sample_rates() -> SourceRates {
    let mut sr = SourceRates::new();
    sr.insert(
        Source::Acba,
        vec![Rate { from: Currency::usd(), to: Currency::default(), rate_type: RateType::NoCash, buy: Some(d("385")), sell: Some(d("390")) }],
    );
    sr
}

#[test]
fn source_replies_are_rendered_once_and_cached() {
    let gen = Gen { rate_dp: 4, diff_dp: 2 };
    let rates = sample_rates();
    let mut cache = Cache::new();
    let first = src_reply(&mut cache, &rates, Source::Acba, RateType::NoCash, &gen);
    assert!(first.starts_with("<code>") && first.ends_with("</code>"));
    assert!(first.contains("USD"));
    assert_eq!(cache.get_src(Source::Acba, RateType::NoCash), Some(first.clone()));
    let empty = SourceRates::new();
    assert_eq!(src_reply(&mut cache, &empty, Source::Acba, RateType::NoCash, &gen), first);
    assert_eq!(src_reply(&mut cache, &empty, Source::Ineco, RateType::NoCash, &gen), DUNNO);
    assert_eq!(cache.get_src(Source::Ineco, RateType::NoCash), None);
}

#[test]
fn conversion_replies_give_both_directions() {
    let gen = Gen { rate_dp: 4, diff_dp: 2 };
    let rates = sample_rates();
    let mut cache = Cache::new();
    let replies = conv_replies(&mut cache, &rates, &Currency::default(), &Currency::usd(), RateType::NoCash, false, &gen).unwrap();
    assert_eq!(replies.len(), 2);
    assert!(replies[0].starts_with("<pre>") && replies[0].contains("AMD/USD"));
    assert!(replies[1].starts_with("<pre>") && replies[1].contains("USD/AMD"));
    assert_eq!(cache.get_conv(Currency::default(), Currency::usd(), RateType::NoCash, true), Some(replies[0].clone()));
    let again = conv_replies(&mut cache, &SourceRates::new(), &Currency::default(), &Currency::usd(), RateType::NoCash, false, &gen).unwrap();
    assert_eq!(again, replies);
    let none = conv_replies(&mut cache, &rates, &Currency::new(""), &Currency::usd(), RateType::NoCash, false, &gen).unwrap();
    assert_eq!(none, vec![DUNNO.to_string()]);
}

#[test]
fn source_tables_escape_html() {
    let gen = Gen { rate_dp: 4, diff_dp: 2 };
    let mut sr = SourceRates::new();
    sr.insert(
        Source::Acba,
        vec![Rate { from: Currency::new("a<b&c"), to: Currency::default(), rate_type: RateType::NoCash, buy: Some(d("1")), sell: Some(d("2")) }],
    );
    let mut cache = Cache::new();
    let reply = src_reply(&mut cache, &sr, Source::Acba, RateType::NoCash, &gen);
    assert!(reply.contains("A&lt;B&amp;C"));
    assert!(!reply.contains("A<B"));
}

#[test]
fn info_reply_writes_the_update_time_in_utc() {
    assert_eq!(
        am_rate_bot::bot::info_reply("1.0", 300, 1431648000, 0),
        Some("version: 1.0\nupdate_interval: 300\nupdated_at: 2015-05-15 00:00:00 UTC".to_string())
    );
    assert_eq!(am_rate_bot::bot::info_reply("1.0", 300, i64::MAX, 0), None);
}
