//! VTB Armenia: cash rates from the first exchange table of its page and
//! transfer rates from the others.
use crate::html::{doc_find_class, node_find_name, node_text, spec_doc_find_class, spec_node_find_name, spec_node_text};
use crate::source::{
    parse_decimal_text, rate_of, rates_view, spec_currency_code, spec_decimal_text, Currency, Rate, RateType,
    RateView,
};
use crate::sources::Error;
use vstd::prelude::*;

verus! {

/// The rates read from the page.
#[derive(Debug)]
pub struct Response {
    pub rates: Vec<Rate>,
}

/// The rate type of the exchange table at position `k`: cash for the first,
/// transfers for the others.
pub open spec fn table_rate_type(k: int) -> RateType {
    if k == 0 {
        RateType::Cash
    } else {
        RateType::NoCash
    }
}

/// The text of the first `span` in a cell.
pub open spec fn spec_span_text(html: Seq<char>, cell: usize) -> Option<Seq<char>> {
    match spec_node_find_name(html, cell, "span"@) {
        Some(spans) => if spans.len() > 0 {
            spec_node_text(html, spans[0])
        } else {
            None
        },
        None => None,
    }
}

/// The rate a row gives: the currency, the buying and the selling rate, each
/// the text of the first `span` of one of its first three `td` cells.
pub open spec fn spec_row(html: Seq<char>, row: usize, rt: RateType) -> Option<RateView> {
    match spec_node_find_name(html, row, "td"@) {
        Some(cells) => if cells.len() < 3 {
            None
        } else {
            match (spec_span_text(html, cells[0]), spec_span_text(html, cells[1]), spec_span_text(html, cells[2])) {
                (Some(c), Some(b), Some(s)) => Some(
                    rate_of(spec_currency_code(c), "AMD"@, rt, spec_decimal_text(b), spec_decimal_text(s)),
                ),
                _ => None,
            }
        },
        None => None,
    }
}

/// The rates of the rows, nothing where one cannot be read.
pub open spec fn spec_rows(html: Seq<char>, rows: Seq<usize>, rt: RateType) -> Option<Seq<RateView>>
    decreases rows.len(),
{
    if rows.len() == 0 {
        Some(Seq::empty())
    } else {
        match (spec_rows(html, rows.drop_last(), rt), spec_row(html, rows.last(), rt)) {
            (Some(p), Some(r)) => Some(p.push(r)),
            _ => None,
        }
    }
}

/// The rates of one exchange table: the `tr` rows of the first body of its
/// first `table`.
pub open spec fn spec_table(html: Seq<char>, t: usize, rt: RateType) -> Option<Seq<RateView>> {
    match spec_node_find_name(html, t, "table"@) {
        Some(tables) => if tables.len() == 0 {
            None
        } else {
            match spec_node_find_name(html, tables[0], "tbody"@) {
                Some(bodies) => if bodies.len() == 0 {
                    None
                } else {
                    match spec_node_find_name(html, bodies[0], "tr"@) {
                        Some(trs) => spec_rows(html, trs, rt),
                        None => None,
                    }
                },
                None => None,
            }
        },
        None => None,
    }
}

/// The rates of the exchange tables in order, each with the rate type of its
/// position.
pub open spec fn spec_tables(html: Seq<char>, ts: Seq<usize>) -> Option<Seq<RateView>>
    decreases ts.len(),
{
    if ts.len() == 0 {
        Some(Seq::empty())
    } else {
        match (spec_tables(html, ts.drop_last()), spec_table(html, ts.last(), table_rate_type(ts.len() - 1))) {
            (Some(p), Some(r)) => Some(p + r),
            _ => None,
        }
    }
}

/// The rates of the page: those of its elements of class
/// `exchange-rate-table`; nothing where one of them cannot be read.
pub open spec fn spec_parse_page(html: Seq<char>) -> Option<Seq<RateView>> {
    spec_tables(html, spec_doc_find_class(html, "exchange-rate-table"@))
}

fn span_text(html: &str, cell: usize) -> (r: Option<String>)
    ensures
        r is None <==> spec_span_text(html@, cell) is None,
        r matches Some(v) ==> spec_span_text(html@, cell) == Some(v@),
{
    let spans = node_find_name(html, cell, "span")?;
    if spans.len() == 0 {
        return None;
    }
    node_text(html, spans[0])
}

fn parse_row(html: &str, row: usize, rt: RateType) -> (r: Option<Rate>)
    ensures
        r is None <==> spec_row(html@, row, rt) is None,
        r matches Some(x) ==> spec_row(html@, row, rt) == Some(x@),
{
    let cells = node_find_name(html, row, "td")?;
    if cells.len() < 3 {
        return None;
    }
    let c = span_text(html, cells[0]);
    let b = span_text(html, cells[1]);
    let s = span_text(html, cells[2]);
    match (c, b, s) {
        (Some(c), Some(b), Some(s)) => Some(
            Rate {
                from: Currency::new(c.as_str()),
                to: Currency::default(),
                rate_type: rt,
                buy: parse_decimal_text(b.as_str()),
                sell: parse_decimal_text(s.as_str()),
            },
        ),
        _ => None,
    }
}

proof fn lemma_rows_none(html: Seq<char>, rows: Seq<usize>, rt: RateType, k: int)
    requires
        0 <= k <= rows.len(),
        spec_rows(html, rows.subrange(0, k), rt) is None,
    ensures
        spec_rows(html, rows, rt) is None,
    decreases rows.len() - k,
{
    if k < rows.len() {
        assert(rows.subrange(0, k + 1).drop_last() =~= rows.subrange(0, k));
        lemma_rows_none(html, rows, rt, k + 1);
    } else {
        assert(rows.subrange(0, k) =~= rows);
    }
}

fn parse_rows(html: &str, rows: &Vec<usize>, rt: RateType) -> (r: Option<Vec<Rate>>)
    ensures
        r is None <==> spec_rows(html@, rows@, rt) is None,
        r matches Some(v) ==> spec_rows(html@, rows@, rt) == Some(rates_view(v@)),
{
    let mut out: Vec<Rate> = Vec::new();
    let mut i: usize = 0;
    assert(rates_view(out@) =~= Seq::<RateView>::empty());
    assert(rows@.subrange(0, 0) =~= Seq::<usize>::empty());
    while i < rows.len()
        invariant
            i <= rows@.len(),
            spec_rows(html@, rows@.subrange(0, i as int), rt) == Some(rates_view(out@)),
        decreases rows@.len() - i,
    {
        assert(rows@.subrange(0, i + 1).drop_last() =~= rows@.subrange(0, i as int));
        assert(rows@.subrange(0, i + 1).last() == rows@[i as int]);
        match parse_row(html, rows[i], rt) {
            Some(x) => {
                let ghost before = rates_view(out@);
                out.push(x);
                assert(rates_view(out@) =~= before.push(x@));
            },
            None => {
                proof {
                    lemma_rows_none(html@, rows@, rt, i + 1);
                }
                return None;
            },
        }
        i = i + 1;
    }
    assert(rows@.subrange(0, rows@.len() as int) =~= rows@);
    Some(out)
}

fn parse_table(html: &str, t: usize, rt: RateType) -> (r: Option<Vec<Rate>>)
    ensures
        r is None <==> spec_table(html@, t, rt) is None,
        r matches Some(v) ==> spec_table(html@, t, rt) == Some(rates_view(v@)),
{
    let tables = node_find_name(html, t, "table")?;
    if tables.len() == 0 {
        return None;
    }
    let bodies = node_find_name(html, tables[0], "tbody")?;
    if bodies.len() == 0 {
        return None;
    }
    let trs = node_find_name(html, bodies[0], "tr")?;
    parse_rows(html, &trs, rt)
}

proof fn lemma_tables_none(html: Seq<char>, ts: Seq<usize>, k: int)
    requires
        0 <= k <= ts.len(),
        spec_tables(html, ts.subrange(0, k)) is None,
    ensures
        spec_tables(html, ts) is None,
    decreases ts.len() - k,
{
    if k < ts.len() {
        assert(ts.subrange(0, k + 1).drop_last() =~= ts.subrange(0, k));
        lemma_tables_none(html, ts, k + 1);
    } else {
        assert(ts.subrange(0, k) =~= ts);
    }
}

/// The rates of the page: cash rates from its first exchange table and
/// transfer rates from the others; `Html` where a table, body, row, cell or
/// `span` is missing.
pub fn parse_page(html: &str) -> (r: core::result::Result<Response, Error>)
    ensures
        r is Err <==> spec_parse_page(html@) is None,
        r matches Err(e) ==> e == Error::Html,
        r matches Ok(resp) ==> spec_parse_page(html@) == Some(rates_view(resp.rates@)),
{
    let ts = doc_find_class(html, "exchange-rate-table");
    let mut rates: Vec<Rate> = Vec::new();
    let mut i: usize = 0;
    assert(rates_view(rates@) =~= Seq::<RateView>::empty());
    assert(ts@.subrange(0, 0) =~= Seq::<usize>::empty());
    while i < ts.len()
        invariant
            ts@ == spec_doc_find_class(html@, "exchange-rate-table"@),
            i <= ts@.len(),
            spec_tables(html@, ts@.subrange(0, i as int)) == Some(rates_view(rates@)),
        decreases ts@.len() - i,
    {
        let ghost pre = ts@.subrange(0, i + 1);
        assert(pre.drop_last() =~= ts@.subrange(0, i as int));
        assert(pre.last() == ts@[i as int]);
        assert(pre.len() - 1 == i);
        let rt = if i == 0 {
            RateType::Cash
        } else {
            RateType::NoCash
        };
        match parse_table(html, ts[i], rt) {
            Some(v) => {
                let ghost before = rates_view(rates@);
                let ghost added = rates_view(v@);
                let mut v = v;
                rates.append(&mut v);
                assert(rates_view(rates@) =~= before + added);
            },
            None => {
                proof {
                    lemma_tables_none(html@, ts@, i + 1);
                }
                return Err(Error::Html);
            },
        }
        i = i + 1;
    }
    assert(ts@.subrange(0, ts@.len() as int) =~= ts@);
    Ok(Response { rates })
}

} // verus!
