//! HSBC Armenia: transfer and cash rates read from the rows of a table.
pub use crate::source::{BaseConfig as Config, BaseResponse as Response};
use crate::source::{
    parse_decimal_text, rate_of, rates_view, spec_currency_code, spec_decimal_text, Currency, Error, Rate,
    RateType, RateView,
};
use crate::html::{
    doc_find_attr, first_with, node_find_name, rows_of, row_view, spec_doc_find_attr, spec_first_with,
    spec_node_find_name, spec_rows, table_view,
};
use vstd::prelude::*;

verus! {

/// The transfer rate, then the cash rate, a row of cells gives: the
/// currency, the buying and selling rates for transfers, then for cash;
/// nothing where the row has fewer than five cells.
pub open spec fn spec_row(cells: Seq<Seq<char>>) -> Option<Seq<RateView>> {
    if cells.len() < 5 {
        None
    } else {
        let from = spec_currency_code(cells[0]);
        Some(
            seq![
                rate_of(from, "AMD"@, RateType::NoCash, spec_decimal_text(cells[1]), spec_decimal_text(cells[2])),
                rate_of(from, "AMD"@, RateType::Cash, spec_decimal_text(cells[3]), spec_decimal_text(cells[4])),
            ],
        )
    }
}

/// The rates of a table given as the cells of its rows, nothing where a row
/// is short.
pub open spec fn spec_parse(rows: Seq<Seq<Seq<char>>>) -> Option<Seq<RateView>>
    decreases rows.len(),
{
    if rows.len() == 0 {
        Some(Seq::empty())
    } else {
        match (spec_parse(rows.drop_last()), spec_row(rows.last())) {
            (Some(prev), Some(r)) => Some(prev + r),
            _ => None,
        }
    }
}

proof fn lemma_parse_none(rows: Seq<Seq<Seq<char>>>, k: int)
    requires
        0 <= k <= rows.len(),
        spec_parse(rows.subrange(0, k)) is None,
    ensures
        spec_parse(rows) is None,
    decreases rows.len() - k,
{
    if k < rows.len() {
        assert(rows.subrange(0, k + 1).drop_last() =~= rows.subrange(0, k));
        lemma_parse_none(rows, k + 1);
    } else {
        assert(rows.subrange(0, k) =~= rows);
    }
}

/// The rates of a table given as the cells of its rows; `Html` where a row
/// has fewer than five cells.
pub fn parse(rows: &Vec<Vec<String>>) -> (r: core::result::Result<Vec<Rate>, Error>)
    ensures
        r is Err <==> spec_parse(table_view(rows@)) is None,
        r matches Err(e) ==> e == Error::Html,
        r matches Ok(v) ==> spec_parse(table_view(rows@)) == Some(rates_view(v@)),
{
    let ghost tv = table_view(rows@);
    let mut rates: Vec<Rate> = Vec::new();
    let n = rows.len();
    let mut i: usize = 0;
    assert(rates_view(rates@) =~= Seq::<RateView>::empty());
    while i < n
        invariant
            n == rows@.len(),
            i <= n,
            tv == table_view(rows@),
            spec_parse(tv.subrange(0, i as int)) == Some(rates_view(rates@)),
        decreases n - i,
    {
        assert(tv.subrange(0, i + 1).drop_last() =~= tv.subrange(0, i as int));
        let cells = &rows[i];
        let ghost cv = row_view(*cells);
        assert(tv.subrange(0, i + 1).last() == cv);
        assert(cv.len() == cells@.len());
        if cells.len() < 5 {
            proof {
                lemma_parse_none(tv, i + 1);
            }
            return Err(Error::Html);
        }
        assert(forall|k: int| 0 <= k < 5 ==> cv[k] == #[trigger] cells@[k]@);
        let from = Currency::new(cells[0].as_str());
        let a = Rate {
            from: from.clone(),
            to: Currency::default(),
            rate_type: RateType::NoCash,
            buy: parse_decimal_text(cells[1].as_str()),
            sell: parse_decimal_text(cells[2].as_str()),
        };
        let b = Rate {
            from,
            to: Currency::default(),
            rate_type: RateType::Cash,
            buy: parse_decimal_text(cells[3].as_str()),
            sell: parse_decimal_text(cells[4].as_str()),
        };
        let ghost before = rates_view(rates@);
        rates.push(a);
        rates.push(b);
        assert(rates_view(rates@) =~= before + spec_row(cv)->0);
        i = i + 1;
    }
    assert(tv.subrange(0, n as int) =~= tv);
    Ok(rates)
}

/// The cells of the rows of the page's table of rates: the element with the
/// id `content_main_basicTable_1`, its first table of class `desktop`, that
/// table's first body, and the `td` cells of each of the body's `tr` rows;
/// nothing where one of them is missing.
pub open spec fn spec_page_rows(html: Seq<char>) -> Option<Seq<Seq<Seq<char>>>> {
    let ids = spec_doc_find_attr(html, "id"@, "content_main_basicTable_1"@);
    if ids.len() == 0 {
        None
    } else {
        match spec_node_find_name(html, ids[0], "table"@) {
            None => None,
            Some(tables) => match spec_first_with(html, tables, "class"@, "desktop"@) {
                None => None,
                Some(t) => match spec_node_find_name(html, t, "tbody"@) {
                    None => None,
                    Some(bodies) => if bodies.len() == 0 {
                        None
                    } else {
                        match spec_node_find_name(html, bodies[0], "tr"@) {
                            None => None,
                            Some(trs) => spec_rows(html, trs, false, "td"@),
                        }
                    },
                },
            },
        }
    }
}

/// The rates of the page, nothing where its table cannot be read.
pub open spec fn spec_parse_page(html: Seq<char>) -> Option<Seq<RateView>> {
    match spec_page_rows(html) {
        Some(t) => spec_parse(t),
        None => None,
    }
}

/// The cells of the rows of the page's table of rates.
pub fn page_rows(html: &str) -> (r: Option<Vec<Vec<String>>>)
    ensures
        r is None <==> spec_page_rows(html@) is None,
        r matches Some(v) ==> spec_page_rows(html@) == Some(table_view(v@)),
{
    let ids = doc_find_attr(html, "id", "content_main_basicTable_1");
    if ids.len() == 0 {
        return None;
    }
    let tables = node_find_name(html, ids[0], "table")?;
    let t = first_with(html, &tables, "class", "desktop")?;
    let bodies = node_find_name(html, t, "tbody")?;
    if bodies.len() == 0 {
        return None;
    }
    let trs = node_find_name(html, bodies[0], "tr")?;
    rows_of(html, &trs, false, "td")
}

/// The rates of the page: a transfer and a cash rate for each row of its
/// table; `Html` where the table or a cell cannot be read.
pub fn parse_page(html: &str) -> (r: core::result::Result<Vec<Rate>, Error>)
    ensures
        r is Err <==> spec_parse_page(html@) is None,
        r matches Err(e) ==> e == Error::Html,
        r matches Ok(v) ==> spec_parse_page(html@) == Some(rates_view(v@)),
{
    match page_rows(html) {
        Some(rows) => parse(&rows),
        None => Err(Error::Html),
    }
}

} // verus!
