//! SAS supermarkets: cash rates read from the rows of an exchange table.
pub use crate::source::{BaseConfig as Config, BaseResponse as Response};
use crate::source::{
    parse_decimal_text, rate_of, rates_view, spec_currency_code, spec_decimal_text, Currency, Error, Rate,
    RateType, RateView,
};
use crate::html::{
    doc_find_class, node_find_class, row_view, rows_of, skip_first, spec_doc_find_class, spec_node_find_class,
    spec_rows as spec_cell_rows, spec_skip_first, table_view,
};
use vstd::prelude::*;

verus! {

/// The cash rate a row of cells gives: the currency, the buying and the
/// selling rate; nothing where the row has fewer than three cells.
pub open spec fn spec_row(cells: Seq<Seq<char>>) -> Option<RateView> {
    if cells.len() < 3 {
        None
    } else {
        Some(
            rate_of(
                spec_currency_code(cells[0]),
                "AMD"@,
                RateType::Cash,
                spec_decimal_text(cells[1]),
                spec_decimal_text(cells[2]),
            ),
        )
    }
}

/// The rates of the rows, nothing where a row is short.
pub open spec fn spec_rows(rows: Seq<Seq<Seq<char>>>) -> Option<Seq<RateView>>
    decreases rows.len(),
{
    if rows.len() == 0 {
        Some(Seq::empty())
    } else {
        match (spec_rows(rows.drop_last()), spec_row(rows.last())) {
            (Some(prev), Some(r)) => Some(prev.push(r)),
            _ => None,
        }
    }
}

/// The rates of a table given as the cells of its rows, the first row being
/// the header; nothing where a row is short.
pub open spec fn spec_parse(rows: Seq<Seq<Seq<char>>>) -> Option<Seq<RateView>> {
    if rows.len() == 0 {
        Some(Seq::empty())
    } else {
        spec_rows(rows.drop_first())
    }
}

fn parse_row(cells: &Vec<String>) -> (r: Option<Rate>)
    ensures
        r is Some <==> spec_row(row_view(*cells)) is Some,
        r matches Some(x) ==> spec_row(row_view(*cells)) == Some(x@),
{
    if cells.len() < 3 {
        return None;
    }
    assert(forall|k: int| 0 <= k < 3 ==> row_view(*cells)[k] == #[trigger] cells@[k]@);
    let from = Currency::new(cells[0].as_str());
    let buy = parse_decimal_text(cells[1].as_str());
    let sell = parse_decimal_text(cells[2].as_str());
    Some(Rate { from, to: Currency::default(), rate_type: RateType::Cash, buy, sell })
}

/// The rates of a table given as the cells of its rows; `Html` where a row
/// other than the header has fewer than three cells.
pub fn parse(rows: &Vec<Vec<String>>) -> (r: core::result::Result<Vec<Rate>, Error>)
    ensures
        r is Err <==> spec_parse(table_view(rows@)) is None,
        r matches Err(e) ==> e == Error::Html,
        r matches Ok(v) ==> spec_parse(table_view(rows@)) == Some(rates_view(v@)),
{
    let mut rates: Vec<Rate> = Vec::new();
    if rows.len() == 0 {
        assert(rates_view(rates@) =~= Seq::<RateView>::empty());
        return Ok(rates);
    }
    let n = rows.len();
    let ghost body = table_view(rows@).drop_first();
    let mut i: usize = 1;
    assert(rates_view(rates@) =~= Seq::<RateView>::empty());
    assert(body.subrange(0, 0) =~= Seq::<Seq<Seq<char>>>::empty());
    while i < n
        invariant
            n == rows@.len(),
            body == table_view(rows@).drop_first(),
            1 <= i <= n,
            spec_rows(body.subrange(0, i - 1)) == Some(rates_view(rates@)),
        decreases n - i,
    {
        assert(body.subrange(0, i as int).drop_last() =~= body.subrange(0, i - 1));
        assert(body.subrange(0, i as int).last() == row_view(rows@[i as int]));
        match parse_row(&rows[i]) {
            Some(x) => {
                let ghost before = rates_view(rates@);
                rates.push(x);
                assert(rates_view(rates@) =~= before.push(x@));
            },
            None => {
                proof {
                    lemma_rows_none(body, i as int);
                }
                return Err(Error::Html);
            },
        }
        i = i + 1;
    }
    assert(body.subrange(0, n - 1) =~= body);
    Ok(rates)
}

/// Once a prefix of the rows fails, the whole table fails.
proof fn lemma_rows_none(rows: Seq<Seq<Seq<char>>>, k: int)
    requires
        0 <= k <= rows.len(),
        spec_rows(rows.subrange(0, k)) is None,
    ensures
        spec_rows(rows) is None,
    decreases rows.len() - k,
{
    if k < rows.len() {
        assert(rows.subrange(0, k + 1).drop_last() =~= rows.subrange(0, k));
        lemma_rows_none(rows, k + 1);
    } else {
        assert(rows.subrange(0, k) =~= rows);
    }
}

/// The rates of rows of cells without a header; `Html` where a row has fewer
/// than three cells.
pub fn parse_rows(rows: &Vec<Vec<String>>) -> (r: core::result::Result<Vec<Rate>, Error>)
    ensures
        r is Err <==> spec_rows(table_view(rows@)) is None,
        r matches Err(e) ==> e == Error::Html,
        r matches Ok(v) ==> spec_rows(table_view(rows@)) == Some(rates_view(v@)),
{
    let ghost tv = table_view(rows@);
    let mut rates: Vec<Rate> = Vec::new();
    let n = rows.len();
    let mut i: usize = 0;
    assert(rates_view(rates@) =~= Seq::<RateView>::empty());
    assert(tv.subrange(0, 0) =~= Seq::<Seq<Seq<char>>>::empty());
    while i < n
        invariant
            n == rows@.len(),
            tv == table_view(rows@),
            i <= n,
            spec_rows(tv.subrange(0, i as int)) == Some(rates_view(rates@)),
        decreases n - i,
    {
        assert(tv.subrange(0, i + 1).drop_last() =~= tv.subrange(0, i as int));
        assert(tv.subrange(0, i + 1).last() == row_view(rows@[i as int]));
        match parse_row(&rows[i]) {
            Some(x) => {
                let ghost before = rates_view(rates@);
                rates.push(x);
                assert(rates_view(rates@) =~= before.push(x@));
            },
            None => {
                proof {
                    lemma_rows_none(tv, i + 1);
                }
                return Err(Error::Html);
            },
        }
        i = i + 1;
    }
    assert(tv.subrange(0, n as int) =~= tv);
    Ok(rates)
}

/// The cells of the rows of the page's exchange table, the header row left
/// out: the first element of class `exchange-table`, its elements of class
/// `exchange-table__row` after the first, and the texts of their elements of
/// class `exchange-table__cell-content`; nothing where one is missing.
pub open spec fn spec_page_rows(html: Seq<char>) -> Option<Seq<Seq<Seq<char>>>> {
    let tables = spec_doc_find_class(html, "exchange-table"@);
    if tables.len() == 0 {
        None
    } else {
        match spec_node_find_class(html, tables[0], "exchange-table__row"@) {
            None => None,
            Some(rows) => spec_cell_rows(html, spec_skip_first(rows), true, "exchange-table__cell-content"@),
        }
    }
}

/// The rates of the page, nothing where its table cannot be read.
pub open spec fn spec_parse_page(html: Seq<char>) -> Option<Seq<RateView>> {
    match spec_page_rows(html) {
        Some(t) => spec_rows(t),
        None => None,
    }
}

/// The cells of the rows of the page's exchange table, the header left out.
pub fn page_rows(html: &str) -> (r: Option<Vec<Vec<String>>>)
    ensures
        r is None <==> spec_page_rows(html@) is None,
        r matches Some(v) ==> spec_page_rows(html@) == Some(table_view(v@)),
{
    let tables = doc_find_class(html, "exchange-table");
    if tables.len() == 0 {
        return None;
    }
    let rows = node_find_class(html, tables[0], "exchange-table__row")?;
    let body = skip_first(&rows);
    rows_of(html, &body, true, "exchange-table__cell-content")
}

/// The cash rates of the page, one for each row after the header; `Html`
/// where the table or a cell cannot be read.
pub fn parse_page(html: &str) -> (r: core::result::Result<Vec<Rate>, Error>)
    ensures
        r is Err <==> spec_parse_page(html@) is None,
        r matches Err(e) ==> e == Error::Html,
        r matches Ok(v) ==> spec_parse_page(html@) == Some(rates_view(v@)),
{
    match page_rows(html) {
        Some(rows) => parse_rows(&rows),
        None => Err(Error::Html),
    }
}

} // verus!
