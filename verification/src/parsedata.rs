//! The shaped document: the classified top-level container, ready for
//! serialization. A document is built once from one decoded input, consumed
//! once by the serializer, and never mutated.

use vstd::prelude::*;

use crate::error::TypstError;
use crate::render::OutputMode;
use crate::tree::RawNode;
use crate::tree::SpecNode;
use crate::tree::entries_from_pairs;
use crate::tree::spec_entries_of;
use crate::tree::spec_nodes_view;
use crate::tree::spec_value_of;
use crate::tree::spec_values_of;
use crate::tree::values_from_nodes;
use crate::value::SpecValue;
use crate::value::TypstValue;
use crate::ser::rounded_table_of;
use crate::ser::spec_render_items;
use crate::ser::spec_render_value;
use crate::ser::tabled_render;
use crate::ser::write_value;
use crate::value::lemma_values_view;
use crate::value::spec_entries_view;
use crate::value::spec_from_cell;
use crate::value::spec_value_view;
use crate::value::spec_values_view;

verus! {

broadcast use {vstd::std_specs::vec::group_vec_axioms, vstd::seq::group_seq_axioms};

/// The mathematical shape of a document.
pub enum SpecDoc {
    /// An optional ordered header and ordered rows of values.
    Table(Option<Seq<Seq<char>>>, Seq<Seq<SpecValue>>),
    /// Ordered key-value entries.
    Dict(Seq<(Seq<char>, SpecValue)>),
    List(Seq<SpecValue>),
    Tuple(Seq<SpecValue>),
}

/// The classified top-level structure of one decoded input: a table of
/// rows with an optional column header, ordered key-value entries, or a
/// sequence rendered as a list or a tuple.
#[derive(Debug, PartialEq)]
pub enum ParsedData {
    Table((Option<Vec<String>>, Vec<Vec<TypstValue>>)),
    Dict(Vec<(String, TypstValue)>),
    List(Vec<TypstValue>),
    Tuple(Vec<TypstValue>),
}

/// The view of a sequence of strings.
pub open spec fn spec_strings_view(ss: Seq<String>) -> Seq<Seq<char>> {
    Seq::new(ss.len(), |i: int| ss[i]@)
}

/// The view of an optional header.
pub open spec fn spec_header_view(h: Option<Vec<String>>) -> Option<Seq<Seq<char>>> {
    match h {
        Some(v) => Some(spec_strings_view(v@)),
        None => None,
    }
}

/// The view of a sequence of rows of values.
pub open spec fn spec_rows_view(rs: Seq<Vec<TypstValue>>) -> Seq<Seq<SpecValue>> {
    Seq::new(rs.len(), |i: int| spec_values_view(rs[i]@))
}

/// The view of a sequence of text records.
pub open spec fn spec_records_view(rs: Seq<Vec<String>>) -> Seq<Seq<Seq<char>>> {
    Seq::new(rs.len(), |i: int| spec_strings_view(rs[i]@))
}

/// The view of a grid of decoded cells.
pub open spec fn spec_grid_view(g: Seq<Vec<RawNode>>) -> Seq<Seq<SpecNode>> {
    Seq::new(g.len(), |i: int| spec_nodes_view(g[i]@))
}

/// The view of a document.
pub open spec fn spec_doc_view(d: ParsedData) -> SpecDoc {
    match d {
        ParsedData::Table(t) => SpecDoc::Table(spec_header_view(t.0), spec_rows_view(t.1@)),
        ParsedData::Dict(es) => SpecDoc::Dict(spec_entries_view(es@)),
        ParsedData::List(vs) => SpecDoc::List(spec_values_view(vs@)),
        ParsedData::Tuple(vs) => SpecDoc::Tuple(spec_values_view(vs@)),
    }
}

impl View for ParsedData {
    type V = SpecDoc;

    open spec fn view(&self) -> SpecDoc {
        spec_doc_view(*self)
    }
}

/// The view of a classification result.
pub open spec fn res_doc_view(r: Result<ParsedData, TypstError>) -> Result<SpecDoc, TypstError> {
    match r {
        Ok(d) => Ok(spec_doc_view(d)),
        Err(e) => Err(e),
    }
}

/// How a decoded root is classified: an object becomes a dictionary; a
/// sequence becomes a tuple in the parenthesized modes (`Tuple`,
/// `Mapping`) and a list in `Dict` mode; any other root becomes a
/// single-element list, so the serializer always frames a composite.
pub open spec fn spec_document_of(n: SpecNode, mode: OutputMode) -> Result<SpecDoc, TypstError> {
    match n {
        SpecNode::Obj(pairs) => match spec_entries_of(pairs) {
            Ok(es) => Ok(SpecDoc::Dict(es)),
            Err(e) => Err(e),
        },
        SpecNode::Arr(items) => match spec_values_of(items) {
            Ok(vs) => if mode is Dict {
                Ok(SpecDoc::List(vs))
            } else {
                Ok(SpecDoc::Tuple(vs))
            },
            Err(e) => Err(e),
        },
        _ => match spec_value_of(n) {
            Ok(v) => Ok(SpecDoc::List(seq![v])),
            Err(e) => Err(e),
        },
    }
}

/// Classifies one decoded root node into a document, per
/// `spec_document_of`.
pub fn document_from_tree(n: &RawNode, mode: OutputMode) -> (r: Result<ParsedData, TypstError>)
    ensures
        res_doc_view(r) == spec_document_of(n@, mode),
{
    match n {
        RawNode::Obj(ps) => match entries_from_pairs(ps) {
            Ok(es) => Ok(ParsedData::Dict(es)),
            Err(e) => Err(e),
        },
        RawNode::Arr(ns) => match values_from_nodes(ns) {
            Ok(vs) => match mode {
                OutputMode::Dict => Ok(ParsedData::List(vs)),
                _ => Ok(ParsedData::Tuple(vs)),
            },
            Err(e) => Err(e),
        },
        scalar => match TypstValue::from_tree(scalar) {
            Ok(v) => {
                let ghost sv = spec_value_view(v);
                let mut items: Vec<TypstValue> = Vec::new();
                items.push(v);
                proof {
                    lemma_values_view(items@);
                    assert(spec_values_view(items@) =~= seq![sv]);
                }
                Ok(ParsedData::List(items))
            },
            Err(e) => Err(e),
        },
    }
}

/// The inferred values of one record of cell text.
pub open spec fn spec_row_values(cells: Seq<Seq<char>>) -> Seq<SpecValue> {
    Seq::new(cells.len(), |i: int| spec_from_cell(cells[i]))
}

/// How text records become a table. With header detection on, the first
/// record is the header and the rest are rows; an empty input keeps an
/// empty header. With detection off, every record is a row. Each cell goes
/// through the string-inference rule.
pub open spec fn spec_table_of_records(recs: Seq<Seq<Seq<char>>>, has_header: bool) -> SpecDoc {
    if has_header {
        if recs.len() == 0 {
            SpecDoc::Table(Some(Seq::<Seq<char>>::empty()), Seq::<Seq<SpecValue>>::empty())
        } else {
            SpecDoc::Table(
                Some(recs[0]),
                Seq::new((recs.len() - 1) as nat, |i: int| spec_row_values(recs[i + 1])),
            )
        }
    } else {
        SpecDoc::Table(None, Seq::new(recs.len(), |i: int| spec_row_values(recs[i])))
    }
}

/// Infers a row of values from a record of cell text.
fn row_from_cells(cells: &Vec<String>) -> (r: Vec<TypstValue>)
    ensures
        r@.len() == cells@.len(),
        spec_values_view(r@) == spec_row_values(spec_strings_view(cells@)),
{
    let mut out: Vec<TypstValue> = Vec::new();
    let mut j: usize = 0;
    while j < cells.len()
        invariant
            j <= cells@.len(),
            out@.len() == j,
            forall|k: int|
                0 <= k < j ==> spec_value_view(#[trigger] out@[k]) == spec_from_cell(
                    cells@[k]@,
                ),
        decreases cells@.len() - j,
    {
        out.push(TypstValue::from_cell(cells[j].as_str()));
        j = j + 1;
    }
    proof {
        lemma_values_view(out@);
        assert forall|k: int|
            0 <= k < out@.len() implies spec_values_view(out@)[k] == spec_row_values(
            spec_strings_view(cells@),
        )[k] by {
            assert(spec_value_view(out@[k]) == spec_from_cell(cells@[k]@));
        }
        assert(spec_values_view(out@) =~= spec_row_values(spec_strings_view(cells@)));
    }
    out
}

/// Builds a table from decoded text records, per `spec_table_of_records`.
#[verifier::loop_isolation(false)]
pub fn table_from_records(records: Vec<Vec<String>>, has_header: bool) -> (r: ParsedData)
    ensures
        r@ == spec_table_of_records(spec_records_view(records@), has_header),
{
    let ghost recs = spec_records_view(records@);
    let mut records = records;
    let ghost recs0 = records@;
    let header: Option<Vec<String>> = if has_header {
        if records.len() > 0 {
            let h = records.remove(0);
            proof {
                assert(records@ =~= recs0.subrange(1, recs0.len() as int));
            }
            Some(h)
        } else {
            Some(Vec::<String>::new())
        }
    } else {
        None
    };
    let ghost removed = has_header && recs0.len() > 0;
    let mut rows: Vec<Vec<TypstValue>> = Vec::new();
    let mut j: usize = 0;
    while j < records.len()
        invariant
            j <= records@.len(),
            rows@.len() == j,
            removed ==> records@ == recs0.subrange(1, recs0.len() as int),
            !removed ==> records@ == recs0,
            forall|k: int|
                0 <= k < j ==> spec_values_view((#[trigger] rows@[k])@) == spec_row_values(
                    spec_strings_view(records@[k]@),
                ),
        decreases records@.len() - j,
    {
        let row = row_from_cells(&records[j]);
        rows.push(row);
        j = j + 1;
    }
    let result = ParsedData::Table((header, rows));
    proof {
        if has_header {
            if recs0.len() > 0 {
                assert(spec_rows_view(rows@) =~= Seq::new(
                    (recs.len() - 1) as nat,
                    |i: int| spec_row_values(recs[i + 1]),
                ));
                assert(spec_strings_view(recs0[0]@) == recs[0]);
            } else {
                assert(spec_rows_view(rows@) =~= Seq::<Seq<SpecValue>>::empty());
                assert(spec_strings_view(Seq::<String>::empty()) =~= Seq::<Seq<char>>::empty());
            }
        } else {
            assert(spec_rows_view(rows@) =~= Seq::new(
                recs.len(),
                |i: int| spec_row_values(recs[i]),
            ));
        }
    }
    result
}

/// Converts a grid of decoded cells into rows of values, row-major,
/// stopping at the first error.
pub open spec fn spec_rows_of(grid: Seq<Seq<SpecNode>>) -> Result<Seq<Seq<SpecValue>>, TypstError>
    decreases grid.len(),
{
    if grid.len() == 0 {
        Ok(Seq::<Seq<SpecValue>>::empty())
    } else {
        match spec_values_of(grid[0]) {
            Err(e) => Err(e),
            Ok(row) => match spec_rows_of(grid.subrange(1, grid.len() as int)) {
                Err(e) => Err(e),
                Ok(rest) => Ok(seq![row] + rest),
            },
        }
    }
}

/// Builds a table from a grid of decoded cells (a spreadsheet range) and an
/// optional header, converting each cell, stopping at the first error.
#[verifier::loop_isolation(false)]
pub fn table_from_cells(header: Option<Vec<String>>, grid: &Vec<Vec<RawNode>>) -> (r: Result<
    ParsedData,
    TypstError,
>)
    ensures
        res_doc_view(r) == (match spec_rows_of(spec_grid_view(grid@)) {
            Ok(rows) => Ok(SpecDoc::Table(spec_header_view(header), rows)),
            Err(e) => Err::<SpecDoc, TypstError>(e),
        }),
{
    let ghost sgrid = spec_grid_view(grid@);
    let mut rows: Vec<Vec<TypstValue>> = Vec::new();
    let mut j: usize = 0;
    assert(sgrid.subrange(0, sgrid.len() as int) =~= sgrid);
    assert(spec_rows_view(rows@) =~= Seq::<Seq<SpecValue>>::empty());
    while j < grid.len()
        invariant
            j <= grid@.len(),
            rows@.len() == j,
            spec_rows_of(sgrid) == (match spec_rows_of(
                sgrid.subrange(j as int, sgrid.len() as int),
            ) {
                Err(e) => Err::<Seq<Seq<SpecValue>>, TypstError>(e),
                Ok(rest) => Ok(spec_rows_view(rows@) + rest),
            }),
        decreases grid@.len() - j,
    {
        let ghost suffix = sgrid.subrange(j as int, sgrid.len() as int);
        proof {
            assert(suffix[0] == sgrid[j as int]);
            assert(suffix.subrange(1, suffix.len() as int) =~= sgrid.subrange(
                j as int + 1,
                sgrid.len() as int,
            ));
        }
        match values_from_nodes(&grid[j]) {
            Ok(row) => {
                let ghost rows0 = rows@;
                let ghost rowv = spec_values_view(row@);
                rows.push(row);
                proof {
                    assert(spec_rows_view(rows@) =~= spec_rows_view(rows0).push(rowv));
                    match spec_rows_of(sgrid.subrange(j as int + 1, sgrid.len() as int)) {
                        Ok(rest) => {
                            assert(spec_rows_view(rows0) + (seq![rowv] + rest) =~= spec_rows_view(
                                rows@,
                            ) + rest);
                        },
                        Err(_) => {},
                    }
                }
                j = j + 1;
            },
            Err(e) => {
                assert(spec_rows_of(suffix) == Err::<Seq<Seq<SpecValue>>, TypstError>(e));
                return Err(e);
            },
        }
    }
    proof {
        assert(sgrid.subrange(j as int, sgrid.len() as int) =~= Seq::<Seq<SpecNode>>::empty());
        assert(spec_rows_view(rows@) + Seq::<Seq<SpecValue>>::empty() =~= spec_rows_view(rows@));
    }
    Ok(ParsedData::Table((header, rows)))
}

/// The text records shown for a table: the header first when present,
/// then each row's cells rendered as literals.
pub open spec fn spec_table_records_text(
    h: Option<Seq<Seq<char>>>,
    rows: Seq<Seq<SpecValue>>,
) -> Seq<Seq<Seq<char>>> {
    let body = Seq::new(
        rows.len(),
        |i: int| Seq::new(rows[i].len(), |j: int| spec_render_value(rows[i][j])),
    );
    match h {
        Some(hh) => seq![hh] + body,
        None => body,
    }
}

/// The lines shown for a dictionary: `key: value`, one entry per line.
pub open spec fn spec_dict_lines(es: Seq<(Seq<char>, SpecValue)>, i: int) -> Seq<char>
    decreases i,
{
    if 0 < i <= es.len() {
        spec_dict_lines(es, i - 1) + es[i - 1].0 + ": "@ + spec_render_value(es[i - 1].1) + "\n"@
    } else {
        Seq::<char>::empty()
    }
}

/// What `to_table` shows for a document: tables drawn by the table
/// renderer under a `Table:` heading, the other shapes labeled with their
/// kind and rendered as literals.
pub open spec fn spec_table_text(d: SpecDoc) -> Seq<char> {
    match d {
        SpecDoc::Table(h, rows) => "Table:\n"@ + rounded_table_of(spec_table_records_text(h, rows)),
        SpecDoc::Dict(es) => "Map: "@ + spec_dict_lines(es, es.len() as int),
        SpecDoc::List(vs) => "List: ["@ + spec_render_items(vs, vs.len() as int) + "]\n"@,
        SpecDoc::Tuple(vs) => "Tuple: ("@ + spec_render_items(vs, vs.len() as int) + ")\n"@,
    }
}

/// Copies a header record.
fn clone_strings(h: &Vec<String>) -> (r: Vec<String>)
    ensures
        spec_strings_view(r@) == spec_strings_view(h@),
{
    let mut out: Vec<String> = Vec::new();
    let mut j: usize = 0;
    while j < h.len()
        invariant
            j <= h@.len(),
            out@.len() == j,
            forall|k: int| 0 <= k < j ==> (#[trigger] out@[k])@ == h@[k]@,
        decreases h@.len() - j,
    {
        out.push(h[j].clone());
        j = j + 1;
    }
    proof {
        assert(spec_strings_view(out@) =~= spec_strings_view(h@));
    }
    out
}

/// Renders each value of a row as its literal text.
fn row_literals(row: &Vec<TypstValue>) -> (r: Vec<String>)
    ensures
        spec_strings_view(r@) == Seq::new(
            spec_values_view(row@).len(),
            |j: int| spec_render_value(spec_values_view(row@)[j]),
        ),
{
    proof {
        lemma_values_view(row@);
    }
    let mut out: Vec<String> = Vec::new();
    let mut j: usize = 0;
    while j < row.len()
        invariant
            j <= row@.len(),
            out@.len() == j,
            forall|k: int|
                0 <= k < j ==> (#[trigger] out@[k])@ == spec_render_value(
                    spec_value_view(row@[k]),
                ),
        decreases row@.len() - j,
    {
        out.push(row[j].to_literal());
        j = j + 1;
    }
    proof {
        lemma_values_view(row@);
        assert(spec_strings_view(out@) =~= Seq::new(
            spec_values_view(row@).len(),
            |j: int| spec_render_value(spec_values_view(row@)[j]),
        ));
    }
    out
}

impl ParsedData {
    /// A human-oriented display of the document: a table drawn with the
    /// outside table renderer under a `Table:` heading; the other shapes
    /// labeled `Map:`, `List:`, `Tuple:` with their entries as literals.
    #[verifier::loop_isolation(false)]
    pub fn to_table(&self) -> (r: String)
        ensures
            r@ == spec_table_text(self@),
    {
        match self {
            ParsedData::Table(t) => {
                let rows = &t.1;
                let ghost srows = spec_rows_view(rows@);
                let mut records: Vec<Vec<String>> = Vec::new();
                let ghost withheader = t.0 is Some;
                match &t.0 {
                    Some(h) => {
                        records.push(clone_strings(h));
                    },
                    None => {},
                }
                let ghost off: int = if withheader { 1int } else { 0int };
                let mut j: usize = 0;
                while j < rows.len()
                    invariant
                        j <= rows@.len(),
                        records@.len() == j + off,
                        withheader ==> spec_strings_view(records@[0]@) == spec_strings_view(
                            t.0->Some_0@,
                        ),
                        forall|k: int|
                            0 <= k < j ==> spec_strings_view((#[trigger] records@[k + off])@)
                                == Seq::new(
                                srows[k].len(),
                                |l: int| spec_render_value(srows[k][l]),
                            ),
                    decreases rows@.len() - j,
                {
                    records.push(row_literals(&rows[j]));
                    j = j + 1;
                }
                proof {
                    let shdr = spec_header_view(t.0);
                    let target = spec_table_records_text(shdr, srows);
                    assert(spec_records_view(records@).len() == target.len());
                    assert forall|k: int|
                        0 <= k < target.len() implies spec_records_view(records@)[k] == target[k] by {
                        if withheader && k == 0 {
                            assert(spec_records_view(records@)[0] =~= target[0]);
                        } else {
                            let i = k - off;
                            assert(0 <= i < srows.len());
                            assert(spec_strings_view(records@[i + off]@) == Seq::new(
                                srows[i].len(),
                                |l: int| spec_render_value(srows[i][l]),
                            ));
                            assert(spec_records_view(records@)[k] =~= target[k]);
                        }
                    }
                    assert(spec_records_view(records@) =~= target);
                }
                let drawn = tabled_render(&records);
                let mut out = String::new();
                out.append("Table:\n");
                out.append(drawn.as_str());
                assert(out@ =~= spec_table_text(self@));
                out
            },
            ParsedData::Dict(es) => {
                let ghost ses = spec_entries_view(es@);
                proof {
                    crate::value::lemma_entries_view(es@);
                }
                let mut out = String::new();
                out.append("Map: ");
                let ghost base = out@;
                let mut j: usize = 0;
                assert(out@ =~= base + spec_dict_lines(ses, 0));
                while j < es.len()
                    invariant
                        j <= es@.len(),
                        out@ == base + spec_dict_lines(ses, j as int),
                    decreases es@.len() - j,
                {
                    let e = &es[j];
                    out.append(e.0.as_str());
                    out.append(": ");
                    write_value(&mut out, &e.1);
                    out.append("\n");
                    j = j + 1;
                    assert(out@ =~= base + spec_dict_lines(ses, j as int));
                }
                assert(out@ =~= spec_table_text(self@));
                out
            },
            ParsedData::List(vs) => {
                proof {
                    lemma_values_view(vs@);
                }
                let mut out = String::new();
                out.append("List: [");
                crate::ser::write_items(&mut out, vs);
                out.append("]\n");
                assert(out@ =~= spec_table_text(self@));
                out
            },
            ParsedData::Tuple(vs) => {
                proof {
                    lemma_values_view(vs@);
                }
                let mut out = String::new();
                out.append("Tuple: (");
                crate::ser::write_items(&mut out, vs);
                out.append(")\n");
                assert(out@ =~= spec_table_text(self@));
                out
            },
        }
    }
}

} // verus!
