//! UnionPay: the dollar rate in roubles, from the table of the last working day.
pub use crate::source::BaseConfig as Config;
use crate::decimal::Dec;
use crate::source::mir::{inverse, spec_inverse};
use crate::source::{rate_of, rates_view, Currency, Error, Rate, RateType, RateView};
use crate::decimal::digits;
use crate::text::{replace_all, spec_replace_all, str_eq};
use vstd::prelude::*;

verus! {

#[derive(Debug)]
pub struct Response {
    pub exchange_rate_json: Vec<ExchangeRate>,
}

#[derive(Debug)]
pub struct ExchangeRate {
    pub trans_cur: Currency,
    pub base_cur: Currency,
    pub rate_data: Dec,
}

/// Whether an entry gives dollars in roubles.
pub open spec fn is_usd_rub(e: ExchangeRate) -> bool {
    e.base_cur@ == "USD"@ && e.trans_cur@ == "RUB"@
}

/// The first entry that gives dollars in roubles.
pub open spec fn spec_first_usd_rub(s: Seq<ExchangeRate>) -> Option<ExchangeRate>
    decreases s.len(),
{
    if s.len() == 0 {
        None
    } else if is_usd_rub(s[0]) {
        Some(s[0])
    } else {
        spec_first_usd_rub(s.drop_first())
    }
}

/// The transfer and cash rates made from an entry: the buying rate is the
/// inverse of the entry's rate, there is no selling rate.
pub open spec fn spec_rates(e: ExchangeRate) -> Seq<RateView> {
    seq![
        rate_of("USD"@, "RUB"@, RateType::NoCash, spec_inverse(e.rate_data), None),
        rate_of("USD"@, "RUB"@, RateType::Cash, spec_inverse(e.rate_data), None),
    ]
}

/// The rates of a response, nothing where no entry gives dollars in roubles.
pub open spec fn spec_parse(resp: Response) -> Option<Seq<RateView>> {
    match spec_first_usd_rub(resp.exchange_rate_json@) {
        Some(e) => Some(spec_rates(e)),
        None => None,
    }
}

/// The rates of a response; `NoRates` where no entry gives dollars in roubles.
pub fn parse(resp: &Response) -> (r: core::result::Result<Vec<Rate>, Error>)
    ensures
        r is Err <==> spec_parse(*resp) is None,
        r matches Err(e) ==> e == Error::NoRates,
        r matches Ok(v) ==> spec_parse(*resp) == Some(rates_view(v@)),
{
    let list = &resp.exchange_rate_json;
    let n = list.len();
    let mut i: usize = 0;
    assert(list@.subrange(0, n as int) =~= list@);
    while i < n
        invariant
            n == list@.len(),
            list@ == resp.exchange_rate_json@,
            i <= n,
            spec_first_usd_rub(list@) == spec_first_usd_rub(list@.subrange(i as int, n as int)),
        decreases n - i,
    {
        let e = &list[i];
        assert(list@.subrange(i as int, n as int).drop_first() =~= list@.subrange(i + 1, n as int));
        assert(list@.subrange(i as int, n as int)[0] == list@[i as int]);
        if str_eq(e.base_cur.0.as_str(), "USD") && str_eq(e.trans_cur.0.as_str(), "RUB") {
            let buy = inverse(&e.rate_data);
            let a = Rate { from: Currency::usd(), to: Currency::rub(), rate_type: RateType::NoCash, buy, sell: None };
            let b = Rate { from: Currency::usd(), to: Currency::rub(), rate_type: RateType::Cash, buy, sell: None };
            let v = vec![a, b];
            assert(rates_view(v@) =~= spec_rates(*e));
            return Ok(v);
        }
        i = i + 1;
    }
    Err(Error::NoRates)
}

// ---------------------------------------------------------------------------
// The day whose table is asked for
// ---------------------------------------------------------------------------

/// Whether a year of the proleptic Gregorian calendar is a leap year.
pub open spec fn is_leap(y: int) -> bool {
    (y % 4 == 0 && y % 100 != 0) || y % 400 == 0
}

/// The number of days of a month.
pub open spec fn days_in_month(y: int, m: int) -> int {
    if m == 2 {
        if is_leap(y) {
            29
        } else {
            28
        }
    } else if m == 4 || m == 6 || m == 9 || m == 11 {
        30
    } else {
        31
    }
}

/// Whether a date exists in `chrono`'s range of years.
pub open spec fn is_date(y: int, m: int, d: int) -> bool {
    &&& -262143 <= y <= 262142
    &&& 1 <= m <= 12
    &&& 1 <= d <= days_in_month(y, m)
}

/// The number of days from 1970-01-01 to a date, negative before it.
pub open spec fn days_from_epoch(y: int, m: int, d: int) -> int {
    let yy = if m <= 2 {
        y - 1
    } else {
        y
    };
    let era = yy / 400;
    let yoe = yy - era * 400;
    let mp = if m > 2 {
        m - 3
    } else {
        m + 9
    };
    let doy = (153 * mp + 2) / 5 + d - 1;
    let doe = yoe * 365 + yoe / 4 - yoe / 100 + doy;
    era * 146097 + doe - 719468
}

/// What `chrono` gives as the weekday of a date, counted from Monday as 0
/// (1970-01-01 was a Thursday); nothing for a date that does not exist.
pub open spec fn spec_weekday(y: i32, m: u32, d: u32) -> Option<u32> {
    if is_date(y as int, m as int, d as int) {
        Some(((days_from_epoch(y as int, m as int, d as int) + 3) % 7) as u32)
    } else {
        None
    }
}

/// What `chrono` gives as the date `n` days before a date, as year, month and
/// day; nothing for a date that does not exist or a result out of its range.
pub uninterp spec fn spec_sub_days(y: i32, m: u32, d: u32, n: u64) -> Option<(i32, u32, u32)>;

/// What `chrono` writes for a date with the format "%Y%m%d"; nothing for a
/// date that does not exist.
pub uninterp spec fn spec_format_ymd(y: i32, m: u32, d: u32) -> Option<Seq<char>>;

/// `n` written with at least `w` digits, zeros in front.
pub open spec fn padded(n: nat, w: nat) -> Seq<char> {
    let ds = if n == 0 { seq!['0'] } else { digits(n) };
    if ds.len() < w {
        Seq::new((w - ds.len()) as nat, |i: int| '0') + ds
    } else {
        ds
    }
}

/// Calls `NaiveDate::from_ymd_opt`, `Datelike::weekday` and
/// `Weekday::num_days_from_monday` of `chrono`: the weekday of a date of the
/// proleptic Gregorian calendar, Monday being 0; nothing for a date that
/// does not exist or lies outside the years -262143 to 262142.
#[verifier::external_body]
fn weekday_from_monday(y: i32, m: u32, d: u32) -> (r: Option<u32>)
    ensures
        r == spec_weekday(y, m, d),
{
    match chrono::NaiveDate::from_ymd_opt(y, m, d) {
        Some(date) => Some(chrono::Datelike::weekday(&date).num_days_from_monday()),
        None => None,
    }
}

/// Calls `NaiveDate::from_ymd_opt` and `NaiveDate::checked_sub_days` of
/// `chrono`: the date `n` days earlier, which exists; nothing for a date
/// that does not exist.
#[verifier::external_body]
fn sub_days(y: i32, m: u32, d: u32, n: u64) -> (r: Option<(i32, u32, u32)>)
    ensures
        r == spec_sub_days(y, m, d, n),
        !is_date(y as int, m as int, d as int) ==> r is None,
        r matches Some(e) ==> is_date(e.0 as int, e.1 as int, e.2 as int),
{
    match chrono::NaiveDate::from_ymd_opt(y, m, d) {
        Some(date) => match date.checked_sub_days(chrono::Days::new(n)) {
            Some(e) => Some((chrono::Datelike::year(&e), chrono::Datelike::month(&e), chrono::Datelike::day(&e))),
            None => None,
        },
        None => None,
    }
}

/// Calls `NaiveDate::from_ymd_opt` and `NaiveDate::format` of `chrono` with
/// "%Y%m%d": for a year from 0 to 9999 the year in four digits, the month
/// and the day in two, zeros in front.
#[verifier::external_body]
fn format_ymd(y: i32, m: u32, d: u32) -> (r: Option<String>)
    ensures
        r is None <==> spec_format_ymd(y, m, d) is None,
        r is None <==> !is_date(y as int, m as int, d as int),
        r matches Some(t) ==> spec_format_ymd(y, m, d) == Some(t@),
        r matches Some(t) ==> (0 <= y <= 9999 ==> t@ == padded(y as nat, 4) + padded(m as nat, 2) + padded(d as nat, 2)),
{
    match chrono::NaiveDate::from_ymd_opt(y, m, d) {
        Some(date) => Some(date.format("%Y%m%d").to_string()),
        None => None,
    }
}

/// How many days back the last working day is from a weekday counted from
/// Monday: one from Saturday, two from Sunday, none otherwise.
pub open spec fn spec_days_back(weekday: u32) -> u64 {
    if weekday == 5 {
        1
    } else if weekday == 6 {
        2
    } else {
        0
    }
}

/// The last working day on or before a date; nothing for a date that does
/// not exist.
pub open spec fn spec_report_date(y: i32, m: u32, d: u32) -> Option<(i32, u32, u32)> {
    match spec_weekday(y, m, d) {
        Some(w) => spec_sub_days(y, m, d, spec_days_back(w)),
        None => None,
    }
}

/// The last working day on or before a date.
pub fn report_date(y: i32, m: u32, d: u32) -> (r: Option<(i32, u32, u32)>)
    ensures
        r == spec_report_date(y, m, d),
{
    match weekday_from_monday(y, m, d) {
        Some(w) => {
            let back: u64 = if w == 5 {
                1
            } else if w == 6 {
                2
            } else {
                0
            };
            sub_days(y, m, d, back)
        },
        None => None,
    }
}

/// The address of the table of the last working day on or before a date:
/// each "%s" of the configured address replaced by that day written as
/// "%Y%m%d"; nothing for a date that does not exist.
pub open spec fn spec_rates_url(url: Seq<char>, y: i32, m: u32, d: u32) -> Option<Seq<char>> {
    match spec_report_date(y, m, d) {
        Some((ry, rm, rd)) => match spec_format_ymd(ry, rm, rd) {
            Some(t) => Some(spec_replace_all(url, "%s"@, t)),
            None => None,
        },
        None => None,
    }
}

/// The address of the table of the last working day on or before a date.
pub fn rates_url(url: &str, y: i32, m: u32, d: u32) -> (r: Option<String>)
    ensures
        r is None <==> spec_rates_url(url@, y, m, d) is None,
        r matches Some(u) ==> spec_rates_url(url@, y, m, d) == Some(u@),
{
    let (ry, rm, rd) = match report_date(y, m, d) {
        Some(x) => x,
        None => return None,
    };
    let t = match format_ymd(ry, rm, rd) {
        Some(t) => t,
        None => return None,
    };
    proof {
        reveal_strlit("%s");
    }
    Some(replace_all(url, "%s", t.as_str()))
}

} // verus!
