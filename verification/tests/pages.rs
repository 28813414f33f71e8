use am_rate_bot::decimal::Dec;
use am_rate_bot::source::alfa_by;
use am_rate_bot::source::{hsbc, sas, Currency, Error, RateType};
use am_rate_bot::sources;
use am_rate_bot::sources::vtb_am;

fn text(o: Option<Dec>) -> String {
    o.map(|v| v.normalize().to_string()).unwrap_or_else(|| "-".into())
}

const HSBC_PAGE: &str = "<html><body><div id=\"content_main_basicTable_1\">\
<table class=\"mobile\"><tbody><tr><td>EUR</td></tr></tbody></table>\
<table class=\"desktop\"><tbody>\
<tr><td>USD</td><td> 388 </td><td>394</td><td>387</td><td>395</td></tr>\
<tr><td>eur</td><td>420</td><td>-</td><td>419</td><td>431</td></tr>\
</tbody></table></div></body></html>";

#[test]
fn hsbc_page_reads_the_desktop_table() {
    let rates = hsbc::parse_page(HSBC_PAGE).unwrap();
    assert_eq!(rates.len(), 4);
    assert_eq!(rates[0].from, Currency::usd());
    assert_eq!(rates[0].to, Currency::default());
    assert_eq!(rates[0].rate_type, RateType::NoCash);
    assert_eq!(text(rates[0].buy), "388");
    assert_eq!(text(rates[0].sell), "394");
    assert_eq!(rates[1].rate_type, RateType::Cash);
    assert_eq!(text(rates[1].buy), "387");
    assert_eq!(text(rates[1].sell), "395");
    assert_eq!(rates[2].from, Currency::eur());
    assert_eq!(text(rates[2].sell), "-");
}

#[test]
fn hsbc_page_without_the_table_or_with_a_short_row_is_an_html_error() {
    assert_eq!(hsbc::parse_page("<html><body><p>maintenance</p></body></html>").err(), Some(Error::Html));
    let no_desktop = "<div id=\"content_main_basicTable_1\"><table class=\"mobile\"><tbody><tr><td>USD</td></tr></tbody></table></div>";
    assert_eq!(hsbc::parse_page(no_desktop).err(), Some(Error::Html));
    let short = "<div id=\"content_main_basicTable_1\"><table class=\"desktop\"><tbody><tr><td>USD</td><td>1</td></tr></tbody></table></div>";
    assert_eq!(hsbc::parse_page(short).err(), Some(Error::Html));
}

const SAS_PAGE: &str = "<html><body><div class=\"exchange-table\">\
<div class=\"exchange-table__row\"><div class=\"exchange-table__cell-content\">Currency</div></div>\
<div class=\"exchange-table__row\"><div class=\"exchange-table__cell-content\">USD</div>\
<div class=\"exchange-table__cell-content\"> 390.5 </div><div class=\"exchange-table__cell-content\">396</div></div>\
</div></body></html>";

#[test]
fn sas_page_skips_the_header_row() {
    let rates = sas::parse_page(SAS_PAGE).unwrap();
    assert_eq!(rates.len(), 1);
    assert_eq!(rates[0].from, Currency::usd());
    assert_eq!(rates[0].rate_type, RateType::Cash);
    assert_eq!(text(rates[0].buy), "390.5");
    assert_eq!(text(rates[0].sell), "396");
    assert_eq!(sas::parse_page("<p>none</p>").err(), Some(Error::Html));
}

#[test]
fn alfa_by_page_gives_its_initial_json() {
    let page = "<html><body><div data-component=\"ExchangePage\" data-initial=\"{&quot;a&quot;:1}\"></div></body></html>";
    assert_eq!(alfa_by::initial_json(page).unwrap(), "{\"a\":1}");
    assert_eq!(alfa_by::initial_json("<div data-component=\"ExchangePage\"></div>").err(), Some(Error::Html));
    assert_eq!(alfa_by::initial_json("<div></div>").err(), Some(Error::Html));
}

const VTB_PAGE: &str = "<html><body>\
<div class=\"exchange-rate-table\"><table><tbody>\
<tr><td><span>USD</span></td><td><span>386</span></td><td><span>396</span></td></tr>\
</tbody></table></div>\
<div class=\"exchange-rate-table\"><table><tbody>\
<tr><td><span>EUR</span></td><td><span>418</span></td><td><span>432</span></td></tr>\
</tbody></table></div>\
</body></html>";

#[test]
fn vtb_page_gives_cash_then_transfer_rates() {
    let resp = vtb_am::parse_page(VTB_PAGE).unwrap();
    assert_eq!(resp.rates.len(), 2);
    assert_eq!(resp.rates[0].from, Currency::usd());
    assert_eq!(resp.rates[0].rate_type, RateType::Cash);
    assert_eq!(text(resp.rates[0].buy), "386");
    assert_eq!(resp.rates[1].from, Currency::eur());
    assert_eq!(resp.rates[1].rate_type, RateType::NoCash);
    assert_eq!(text(resp.rates[1].sell), "432");
    let no_span = "<div class=\"exchange-rate-table\"><table><tbody><tr><td>USD</td><td>1</td><td>2</td></tr></tbody></table></div>";
    assert_eq!(vtb_am::parse_page(no_span).err(), Some(sources::Error::Html));
    assert_eq!(vtb_am::parse_page("<p></p>").unwrap().rates.len(), 0);
}
