//! Reading the sources' web pages: the elements of a page, found with
//! `select`, are given by their positions in the page's list of nodes, and
//! the tables of cells are built from them here.
use vstd::prelude::*;

verus! {

/// The positions, in document order, of the elements of the page `html`
/// that have the class `class`.
pub uninterp spec fn spec_doc_find_class(html: Seq<char>, class: Seq<char>) -> Seq<usize>;

/// The positions, in document order, of the elements of the page `html`
/// whose attribute `attr` is `value`.
pub uninterp spec fn spec_doc_find_attr(html: Seq<char>, attr: Seq<char>, value: Seq<char>) -> Seq<usize>;

/// The positions of the elements below the node at `node` that have the
/// class `class`; nothing where there is no such node.
pub uninterp spec fn spec_node_find_class(html: Seq<char>, node: usize, class: Seq<char>) -> Option<Seq<usize>>;

/// The positions of the elements below the node at `node` named `name`;
/// nothing where there is no such node.
pub uninterp spec fn spec_node_find_name(html: Seq<char>, node: usize, name: Seq<char>) -> Option<Seq<usize>>;

/// The value of the attribute `attr` of the node at `node`; nothing where the
/// node or the attribute is missing.
pub uninterp spec fn spec_node_attr(html: Seq<char>, node: usize, attr: Seq<char>) -> Option<Seq<char>>;

/// The text of the node at `node` and of all below it; nothing where there is
/// no such node.
pub uninterp spec fn spec_node_text(html: Seq<char>, node: usize) -> Option<Seq<char>>;

/// Calls `Document::from` and `Document::find` with `Class` of `select`;
/// the contract names the positions found.
#[verifier::external_body]
pub(crate) fn doc_find_class(html: &str, class: &str) -> (r: Vec<usize>)
    ensures
        r@ == spec_doc_find_class(html@, class@),
{
    let doc = select::document::Document::from(html);
    doc.find(select::predicate::Class(class)).map(|n| n.index()).collect()
}

/// Calls `Document::from` and `Document::find` with `Attr` of `select`;
/// the contract names the positions found.
#[verifier::external_body]
pub(crate) fn doc_find_attr(html: &str, attr: &str, value: &str) -> (r: Vec<usize>)
    ensures
        r@ == spec_doc_find_attr(html@, attr@, value@),
{
    let doc = select::document::Document::from(html);
    doc.find(select::predicate::Attr(attr, value)).map(|n| n.index()).collect()
}

/// Calls `Document::from`, `Document::nth` and `Node::find` with `Class` of
/// `select`; the contract names the positions found.
#[verifier::external_body]
pub(crate) fn node_find_class(html: &str, node: usize, class: &str) -> (r: Option<Vec<usize>>)
    ensures
        r is None <==> spec_node_find_class(html@, node, class@) is None,
        r matches Some(v) ==> spec_node_find_class(html@, node, class@) == Some(v@),
{
    let doc = select::document::Document::from(html);
    match doc.nth(node) {
        Some(n) => Some(n.find(select::predicate::Class(class)).map(|x| x.index()).collect()),
        None => None,
    }
}

/// Calls `Document::from`, `Document::nth` and `Node::find` with `Name` of
/// `select`; the contract names the positions found.
#[verifier::external_body]
pub(crate) fn node_find_name(html: &str, node: usize, name: &str) -> (r: Option<Vec<usize>>)
    ensures
        r is None <==> spec_node_find_name(html@, node, name@) is None,
        r matches Some(v) ==> spec_node_find_name(html@, node, name@) == Some(v@),
{
    let doc = select::document::Document::from(html);
    match doc.nth(node) {
        Some(n) => Some(n.find(select::predicate::Name(name)).map(|x| x.index()).collect()),
        None => None,
    }
}

/// Calls `Document::from`, `Document::nth` and `Node::attr` of `select`; the
/// contract names the value read.
#[verifier::external_body]
pub(crate) fn node_attr(html: &str, node: usize, attr: &str) -> (r: Option<String>)
    ensures
        r is None <==> spec_node_attr(html@, node, attr@) is None,
        r matches Some(v) ==> spec_node_attr(html@, node, attr@) == Some(v@),
{
    let doc = select::document::Document::from(html);
    match doc.nth(node) {
        Some(n) => n.attr(attr).map(|v| v.to_string()),
        None => None,
    }
}

/// Calls `Document::from`, `Document::nth` and `Node::text` of `select`; the
/// contract names the text read.
#[verifier::external_body]
pub(crate) fn node_text(html: &str, node: usize) -> (r: Option<String>)
    ensures
        r is None <==> spec_node_text(html@, node) is None,
        r matches Some(v) ==> spec_node_text(html@, node) == Some(v@),
{
    let doc = select::document::Document::from(html);
    match doc.nth(node) {
        Some(n) => Some(n.text()),
        None => None,
    }
}

/// The texts of a row of cells.
pub open spec fn row_view(cells: Vec<String>) -> Seq<Seq<char>> {
    cells@.map_values(|c: String| c@)
}

/// The texts of a table of cells.
pub open spec fn table_view(rows: Seq<Vec<String>>) -> Seq<Seq<Seq<char>>> {
    rows.map_values(|r: Vec<String>| row_view(r))
}

/// The texts of the nodes, nothing where one is missing.
pub open spec fn spec_texts(html: Seq<char>, nodes: Seq<usize>) -> Option<Seq<Seq<char>>>
    decreases nodes.len(),
{
    if nodes.len() == 0 {
        Some(Seq::empty())
    } else {
        match (spec_texts(html, nodes.drop_last()), spec_node_text(html, nodes.last())) {
            (Some(p), Some(t)) => Some(p.push(t)),
            _ => None,
        }
    }
}

proof fn lemma_texts_none(html: Seq<char>, nodes: Seq<usize>, k: int)
    requires
        0 <= k <= nodes.len(),
        spec_texts(html, nodes.subrange(0, k)) is None,
    ensures
        spec_texts(html, nodes) is None,
    decreases nodes.len() - k,
{
    if k < nodes.len() {
        assert(nodes.subrange(0, k + 1).drop_last() =~= nodes.subrange(0, k));
        lemma_texts_none(html, nodes, k + 1);
    } else {
        assert(nodes.subrange(0, k) =~= nodes);
    }
}

/// The texts of the nodes.
pub fn texts(html: &str, nodes: &Vec<usize>) -> (r: Option<Vec<String>>)
    ensures
        r is None <==> spec_texts(html@, nodes@) is None,
        r matches Some(v) ==> spec_texts(html@, nodes@) == Some(row_view(v)),
{
    let mut out: Vec<String> = Vec::new();
    let mut i: usize = 0;
    assert(row_view(out) =~= Seq::<Seq<char>>::empty());
    assert(nodes@.subrange(0, 0) =~= Seq::<usize>::empty());
    while i < nodes.len()
        invariant
            i <= nodes@.len(),
            spec_texts(html@, nodes@.subrange(0, i as int)) == Some(row_view(out)),
        decreases nodes@.len() - i,
    {
        assert(nodes@.subrange(0, i + 1).drop_last() =~= nodes@.subrange(0, i as int));
        match node_text(html, nodes[i]) {
            Some(t) => {
                let ghost before = row_view(out);
                let ghost tv = t@;
                out.push(t);
                assert(row_view(out) =~= before.push(tv));
            },
            None => {
                proof {
                    lemma_texts_none(html@, nodes@, i + 1);
                }
                return None;
            },
        }
        i = i + 1;
    }
    assert(nodes@.subrange(0, nodes@.len() as int) =~= nodes@);
    Some(out)
}

/// How the cells of a row are found: by element name or by class.
pub open spec fn spec_cells_of(html: Seq<char>, row: usize, by_class: bool, cell: Seq<char>) -> Option<Seq<usize>> {
    if by_class {
        spec_node_find_class(html, row, cell)
    } else {
        spec_node_find_name(html, row, cell)
    }
}

/// The texts of the cells of each row, nothing where a lookup fails.
pub open spec fn spec_rows(html: Seq<char>, rows: Seq<usize>, by_class: bool, cell: Seq<char>) -> Option<
    Seq<Seq<Seq<char>>>,
>
    decreases rows.len(),
{
    if rows.len() == 0 {
        Some(Seq::empty())
    } else {
        match spec_rows(html, rows.drop_last(), by_class, cell) {
            Some(p) => match spec_cells_of(html, rows.last(), by_class, cell) {
                Some(cs) => match spec_texts(html, cs) {
                    Some(t) => Some(p.push(t)),
                    None => None,
                },
                None => None,
            },
            None => None,
        }
    }
}

proof fn lemma_rows_none(html: Seq<char>, rows: Seq<usize>, by_class: bool, cell: Seq<char>, k: int)
    requires
        0 <= k <= rows.len(),
        spec_rows(html, rows.subrange(0, k), by_class, cell) is None,
    ensures
        spec_rows(html, rows, by_class, cell) is None,
    decreases rows.len() - k,
{
    if k < rows.len() {
        assert(rows.subrange(0, k + 1).drop_last() =~= rows.subrange(0, k));
        lemma_rows_none(html, rows, by_class, cell, k + 1);
    } else {
        assert(rows.subrange(0, k) =~= rows);
    }
}

/// The texts of the cells of each row, the cells found by class where
/// `by_class` holds and by element name otherwise.
pub fn rows_of(html: &str, rows: &Vec<usize>, by_class: bool, cell: &str) -> (r: Option<Vec<Vec<String>>>)
    ensures
        r is None <==> spec_rows(html@, rows@, by_class, cell@) is None,
        r matches Some(v) ==> spec_rows(html@, rows@, by_class, cell@) == Some(table_view(v@)),
{
    let mut out: Vec<Vec<String>> = Vec::new();
    let mut i: usize = 0;
    assert(table_view(out@) =~= Seq::<Seq<Seq<char>>>::empty());
    assert(rows@.subrange(0, 0) =~= Seq::<usize>::empty());
    while i < rows.len()
        invariant
            i <= rows@.len(),
            spec_rows(html@, rows@.subrange(0, i as int), by_class, cell@) == Some(table_view(out@)),
        decreases rows@.len() - i,
    {
        let ghost pre = rows@.subrange(0, i as int);
        assert(rows@.subrange(0, i + 1).drop_last() =~= pre);
        assert(rows@.subrange(0, i + 1).last() == rows@[i as int]);
        let cells = if by_class {
            node_find_class(html, rows[i], cell)
        } else {
            node_find_name(html, rows[i], cell)
        };
        let found = match cells {
            Some(cs) => texts(html, &cs),
            None => None,
        };
        match found {
            Some(t) => {
                let ghost before = table_view(out@);
                let ghost tv = row_view(t);
                out.push(t);
                assert(table_view(out@) =~= before.push(tv));
            },
            None => {
                proof {
                    lemma_rows_none(html@, rows@, by_class, cell@, i + 1);
                }
                return None;
            },
        }
        i = i + 1;
    }
    assert(rows@.subrange(0, rows@.len() as int) =~= rows@);
    Some(out)
}

/// The positions after the first.
pub open spec fn spec_skip_first(v: Seq<usize>) -> Seq<usize> {
    if v.len() == 0 {
        v
    } else {
        v.drop_first()
    }
}

/// The positions after the first.
pub fn skip_first(v: &Vec<usize>) -> (r: Vec<usize>)
    ensures
        r@ == spec_skip_first(v@),
{
    let mut out: Vec<usize> = Vec::new();
    let mut i: usize = 1;
    while i < v.len()
        invariant
            1 <= i,
            i <= v@.len() || v@.len() == 0,
            out@ == v@.subrange(1, i as int) || v@.len() == 0,
            v@.len() == 0 ==> out@.len() == 0,
        decreases v@.len() - i,
    {
        out.push(v[i]);
        i = i + 1;
        assert(out@ =~= v@.subrange(1, i as int));
    }
    if v.len() > 0 {
        assert(out@ =~= v@.drop_first());
    } else {
        assert(out@ =~= v@);
    }
    out
}

/// The first of the nodes whose attribute `attr` is `value`.
pub open spec fn spec_first_with(html: Seq<char>, nodes: Seq<usize>, attr: Seq<char>, value: Seq<char>) -> Option<
    usize,
>
    decreases nodes.len(),
{
    if nodes.len() == 0 {
        None
    } else if spec_node_attr(html, nodes[0], attr) == Some(value) {
        Some(nodes[0])
    } else {
        spec_first_with(html, nodes.drop_first(), attr, value)
    }
}

/// The first of the nodes whose attribute `attr` is `value`.
pub fn first_with(html: &str, nodes: &Vec<usize>, attr: &str, value: &str) -> (r: Option<usize>)
    ensures
        r == spec_first_with(html@, nodes@, attr@, value@),
{
    let mut i: usize = 0;
    assert(nodes@.subrange(0, nodes@.len() as int) =~= nodes@);
    while i < nodes.len()
        invariant
            i <= nodes@.len(),
            spec_first_with(html@, nodes@, attr@, value@) == spec_first_with(
                html@,
                nodes@.subrange(i as int, nodes@.len() as int),
                attr@,
                value@,
            ),
        decreases nodes@.len() - i,
    {
        let ghost rest = nodes@.subrange(i as int, nodes@.len() as int);
        assert(rest[0] == nodes@[i as int]);
        assert(rest.drop_first() =~= nodes@.subrange(i + 1, nodes@.len() as int));
        let a = node_attr(html, nodes[i], attr);
        let hit = match &a {
            Some(v) => crate::text::str_eq(v.as_str(), value),
            None => false,
        };
        if hit {
            return Some(nodes[i]);
        }
        i = i + 1;
    }
    assert(nodes@.subrange(i as int, nodes@.len() as int) =~= Seq::<usize>::empty());
    None
}

} // verus!
