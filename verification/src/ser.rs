//! The literal-syntax serializer: renders values and shaped documents as
//! text, with framing characters, separators and key-value punctuation fixed
//! by sequence-level specification functions.
//!
//! Scalar policy: null renders as `none`; booleans as lowercase `true` and
//! `false`; integers in decimal without grouping; floats as their carried
//! decimal text (which always shows a decimal point or exponent); strings
//! bare, without quotes. Composites: arrays `[a, b]`, tuples `(a, b)`,
//! dictionaries `{ k: v, l: w }`. A bare value and a value embedded in a
//! composite render identically.

use vstd::prelude::*;
use vstd::string::StringExecFns;

use crate::error::TypstError;
use crate::num::push_i64_dec;
use crate::num::push_u64_dec;
use crate::num::spec_udec;
use crate::num::spec_idec;
use crate::parsedata::ParsedData;
use crate::parsedata::SpecDoc;
use crate::parsedata::spec_rows_view;
use crate::parsedata::spec_strings_view;
use crate::value::SpecValue;
use crate::value::TypstValue;
use crate::value::lemma_entries_view;
use crate::value::lemma_values_view;
use crate::value::spec_entries_view;
use crate::value::spec_values_view;

verus! {

broadcast use {vstd::std_specs::vec::group_vec_axioms, vstd::seq::group_seq_axioms};

/// The rendered text of a value.
pub open spec fn spec_render_value(v: SpecValue) -> Seq<char>
    decreases v, 1nat,
{
    match v {
        SpecValue::Null => "none"@,
        SpecValue::Bool(b) => if b {
            "true"@
        } else {
            "false"@
        },
        SpecValue::Int(i) => spec_idec(i),
        SpecValue::Float(t) => t,
        SpecValue::Str(t) => t,
        SpecValue::Tuple(items) => {
            proof {
                assert(decreases_to!(v => items));
            }
            "("@ + spec_render_items(items, items.len() as int) + ")"@
        },
        SpecValue::Dict(entries) => {
            proof {
                assert(decreases_to!(v => entries));
            }
            "{ "@ + spec_render_entries(entries, entries.len() as int) + " }"@
        },
        SpecValue::Array(items) => {
            proof {
                assert(decreases_to!(v => items));
            }
            "["@ + spec_render_items(items, items.len() as int) + "]"@
        },
    }
}

/// The rendered text of the first `i` items of a sequence, separated by
/// ", ".
pub open spec fn spec_render_items(items: Seq<SpecValue>, i: int) -> Seq<char>
    decreases items, i,
{
    if 0 < i <= items.len() {
        proof {
            assert(decreases_to!(items => items[i - 1]));
        }
        spec_render_items(items, i - 1) + (if i == 1 {
            Seq::<char>::empty()
        } else {
            ", "@
        }) + spec_render_value(items[i - 1])
    } else {
        Seq::<char>::empty()
    }
}

/// The rendered text of the first `i` key-value entries of a dictionary,
/// `key: value`, separated by ", ".
pub open spec fn spec_render_entries(entries: Seq<(Seq<char>, SpecValue)>, i: int) -> Seq<char>
    decreases entries, i,
{
    if 0 < i <= entries.len() {
        proof {
            assert(decreases_to!(entries => entries[i - 1]));
        }
        spec_render_entries(entries, i - 1) + (if i == 1 {
            Seq::<char>::empty()
        } else {
            ", "@
        }) + entries[i - 1].0 + ": "@ + spec_render_value(entries[i - 1].1)
    } else {
        Seq::<char>::empty()
    }
}

/// Appends the rendered text of `v` to `buf`.
pub fn write_value(buf: &mut String, v: &TypstValue)
    ensures
        final(buf)@ == old(buf)@ + spec_render_value(v@),
    decreases v, 1nat,
{
    match v {
        TypstValue::Null => {
            buf.append("none");
        },
        TypstValue::Bool(b) => {
            if *b {
                buf.append("true");
            } else {
                buf.append("false");
            }
        },
        TypstValue::Int(i) => {
            push_i64_dec(buf, *i);
        },
        TypstValue::Float(t) => {
            buf.append(t.as_str());
        },
        TypstValue::Str(t) => {
            buf.append(t.as_str());
        },
        TypstValue::Tuple(vs) => {
            proof {
                assert(decreases_to!(v => vs));
            }
            buf.append("(");
            write_items(buf, vs);
            buf.append(")");
            proof {
                lemma_values_view(vs@);
                assert(buf@ =~= old(buf)@ + spec_render_value(v@));
            }
        },
        TypstValue::Dict(es) => {
            proof {
                assert(decreases_to!(v => es));
            }
            buf.append("{ ");
            write_entries(buf, es);
            buf.append(" }");
            proof {
                lemma_entries_view(es@);
                assert(buf@ =~= old(buf)@ + spec_render_value(v@));
            }
        },
        TypstValue::Array(vs) => {
            proof {
                assert(decreases_to!(v => vs));
            }
            buf.append("[");
            write_items(buf, vs);
            buf.append("]");
            proof {
                lemma_values_view(vs@);
                assert(buf@ =~= old(buf)@ + spec_render_value(v@));
            }
        },
    }
}

/// Appends the items of `vs`, separated by ", ", to `buf`.
pub(crate) fn write_items(buf: &mut String, vs: &Vec<TypstValue>)
    ensures
        final(buf)@ == old(buf)@ + spec_render_items(
            spec_values_view(vs@),
            vs@.len() as int,
        ),
    decreases vs, 0nat,
{
    let ghost svs = spec_values_view(vs@);
    proof {
        lemma_values_view(vs@);
    }
    let ghost buf0 = buf@;
    let mut j: usize = 0;
    assert(buf@ =~= buf0 + spec_render_items(svs, 0));
    while j < vs.len()
        invariant
            j <= vs.len(),
            svs == spec_values_view(vs@),
            svs.len() == vs@.len(),
            forall|k: int|
                0 <= k < vs@.len() ==> svs[k] == crate::value::spec_value_view(#[trigger] vs@[k]),
            buf@ == buf0 + spec_render_items(svs, j as int),
        decreases vs@.len() - j,
    {
        if j > 0 {
            buf.append(", ");
        }
        proof {
            assert(decreases_to!(vs => vs@[j as int]));
        }
        write_value(buf, &vs[j]);
        j = j + 1;
        assert(buf@ =~= buf0 + spec_render_items(svs, j as int));
    }
}

/// Appends the entries of `es`, `key: value` separated by ", ", to `buf`.
fn write_entries(buf: &mut String, es: &Vec<(String, TypstValue)>)
    ensures
        final(buf)@ == old(buf)@ + spec_render_entries(
            spec_entries_view(es@),
            es@.len() as int,
        ),
    decreases es, 0nat,
{
    let ghost ses = spec_entries_view(es@);
    proof {
        lemma_entries_view(es@);
    }
    let ghost buf0 = buf@;
    let mut j: usize = 0;
    assert(buf@ =~= buf0 + spec_render_entries(ses, 0));
    while j < es.len()
        invariant
            j <= es.len(),
            ses == spec_entries_view(es@),
            ses.len() == es@.len(),
            forall|k: int|
                0 <= k < es@.len() ==> ses[k] == ((#[trigger] es@[k]).0@,
                crate::value::spec_value_view(es@[k].1)),
            buf@ == buf0 + spec_render_entries(ses, j as int),
        decreases es@.len() - j,
    {
        if j > 0 {
            buf.append(", ");
        }
        let e = &es[j];
        buf.append(e.0.as_str());
        buf.append(": ");
        proof {
            assert(decreases_to!(es => es@[j as int]));
            assert(decreases_to!(es@[j as int] => es@[j as int].1));
        }
        write_value(buf, &e.1);
        j = j + 1;
        assert(buf@ =~= buf0 + spec_render_entries(ses, j as int));
    }
}

impl TypstValue {
    /// The rendered literal text of this value on its own: exactly what the
    /// serializer emits for it inside a composite.
    pub fn to_literal(&self) -> (r: String)
        ensures
            r@ == spec_render_value(self@),
    {
        let mut buf = String::new();
        write_value(&mut buf, self);
        buf
    }
}


/// The header zip policy: one entry per position up to the shorter of
/// header and row, keys in header order; extra header columns beyond a
/// short row are omitted, extra cells beyond the header are dropped.
pub open spec fn spec_zip_entries(h: Seq<Seq<char>>, row: Seq<SpecValue>) -> Seq<
    (Seq<char>, SpecValue),
> {
    Seq::new(
        if h.len() <= row.len() {
            h.len()
        } else {
            row.len()
        },
        |i: int| (h[i], row[i]),
    )
}

/// The rendered text of the first `i` table rows under a header: each row a
/// dictionary of header-zipped entries, separated by ", ".
pub open spec fn spec_render_dict_rows(
    h: Seq<Seq<char>>,
    rows: Seq<Seq<SpecValue>>,
    i: int,
) -> Seq<char>
    decreases i,
{
    if 0 < i <= rows.len() {
        spec_render_dict_rows(h, rows, i - 1) + (if i == 1 {
            Seq::<char>::empty()
        } else {
            ", "@
        }) + spec_render_value(SpecValue::Dict(spec_zip_entries(h, rows[i - 1])))
    } else {
        Seq::<char>::empty()
    }
}

/// The rendered text of the first `i` headerless table rows: each row its
/// own nested array, separated by ", ".
pub open spec fn spec_render_array_rows(rows: Seq<Seq<SpecValue>>, i: int) -> Seq<char>
    decreases i,
{
    if 0 < i <= rows.len() {
        spec_render_array_rows(rows, i - 1) + (if i == 1 {
            Seq::<char>::empty()
        } else {
            ", "@
        }) + spec_render_value(SpecValue::Array(rows[i - 1]))
    } else {
        Seq::<char>::empty()
    }
}

/// The rendered text of a document. A table with a header is an array of
/// per-row dictionaries; without one, an array of per-row arrays; the
/// other shapes render as the corresponding composite value.
pub open spec fn spec_render_doc(d: SpecDoc) -> Seq<char> {
    match d {
        SpecDoc::Table(hopt, rows) => match hopt {
            Some(h) => "["@ + spec_render_dict_rows(h, rows, rows.len() as int) + "]"@,
            None => "["@ + spec_render_array_rows(rows, rows.len() as int) + "]"@,
        },
        SpecDoc::Dict(es) => spec_render_value(SpecValue::Dict(es)),
        SpecDoc::List(vs) => spec_render_value(SpecValue::Array(vs)),
        SpecDoc::Tuple(vs) => spec_render_value(SpecValue::Tuple(vs)),
    }
}

/// Appends one table row as a dictionary of header-zipped entries.
#[verifier::loop_isolation(false)]
fn write_row_dict(buf: &mut String, h: &Vec<String>, row: &Vec<TypstValue>)
    ensures
        final(buf)@ == old(buf)@ + spec_render_value(
            SpecValue::Dict(spec_zip_entries(spec_strings_view(h@), spec_values_view(row@))),
        ),
{
    let ghost zip = spec_zip_entries(spec_strings_view(h@), spec_values_view(row@));
    proof {
        lemma_values_view(row@);
    }
    buf.append("{ ");
    let ghost base = buf@;
    let m: usize = if h.len() <= row.len() {
        h.len()
    } else {
        row.len()
    };
    assert(zip.len() == m);
    let mut k: usize = 0;
    assert(buf@ =~= base + spec_render_entries(zip, 0));
    while k < m
        invariant
            k <= m,
            buf@ == base + spec_render_entries(zip, k as int),
        decreases m - k,
    {
        if k > 0 {
            buf.append(", ");
        }
        buf.append(h[k].as_str());
        buf.append(": ");
        write_value(buf, &row[k]);
        k = k + 1;
        assert(zip[k - 1] == (h@[k - 1]@, spec_values_view(row@)[k - 1]));
        assert(buf@ =~= base + spec_render_entries(zip, k as int));
    }
    buf.append(" }");
    assert(buf@ =~= old(buf)@ + spec_render_value(SpecValue::Dict(zip)));
}

/// Appends the rendered text of a document to `buf`.
#[verifier::loop_isolation(false)]
#[verifier::rlimit(60)]
pub fn write_document(buf: &mut String, d: &ParsedData)
    ensures
        final(buf)@ == old(buf)@ + spec_render_doc(d@),
{
    match d {
        ParsedData::Table(t) => {
            let rows = &t.1;
            let ghost srows = spec_rows_view(rows@);
            assert(srows.len() == rows@.len());
            match &t.0 {
                Some(h) => {
                    let ghost sh = spec_strings_view(h@);
                    buf.append("[");
                    let ghost base = buf@;
                    let mut j: usize = 0;
                    assert(buf@ =~= base + spec_render_dict_rows(sh, srows, 0));
                    while j < rows.len()
                        invariant
                            j <= rows@.len(),
                            buf@ == base + spec_render_dict_rows(sh, srows, j as int),
                        decreases rows@.len() - j,
                    {
                        if j > 0 {
                            buf.append(", ");
                        }
                        write_row_dict(buf, h, &rows[j]);
                        j = j + 1;
                        assert(srows[j - 1] == spec_values_view(rows@[j - 1]@));
                        assert(buf@ =~= base + spec_render_dict_rows(sh, srows, j as int));
                    }
                    buf.append("]");
                    assert(buf@ =~= old(buf)@ + spec_render_doc(d@));
                },
                None => {
                    buf.append("[");
                    let ghost base = buf@;
                    let mut j: usize = 0;
                    assert(buf@ =~= base + spec_render_array_rows(srows, 0));
                    while j < rows.len()
                        invariant
                            j <= rows@.len(),
                            buf@ == base + spec_render_array_rows(srows, j as int),
                        decreases rows@.len() - j,
                    {
                        if j > 0 {
                            buf.append(", ");
                        }
                        let rrow = &rows[j];
                        proof {
                            lemma_values_view(rrow@);
                        }
                        buf.append("[");
                        write_items(buf, rrow);
                        buf.append("]");
                        j = j + 1;
                        assert(srows[j - 1] == spec_values_view(rows@[j - 1]@));
                        assert(buf@ =~= base + spec_render_array_rows(srows, j as int));
                    }
                    buf.append("]");
                    assert(buf@ =~= old(buf)@ + spec_render_doc(d@));
                },
            }
        },
        ParsedData::Dict(es) => {
            buf.append("{ ");
            write_entries(buf, es);
            buf.append(" }");
            proof {
                lemma_entries_view(es@);
                assert(buf@ =~= old(buf)@ + spec_render_doc(d@));
            }
        },
        ParsedData::List(vs) => {
            buf.append("[");
            write_items(buf, vs);
            buf.append("]");
            proof {
                lemma_values_view(vs@);
                assert(buf@ =~= old(buf)@ + spec_render_doc(d@));
            }
        },
        ParsedData::Tuple(vs) => {
            buf.append("(");
            write_items(buf, vs);
            buf.append(")");
            proof {
                lemma_values_view(vs@);
                assert(buf@ =~= old(buf)@ + spec_render_doc(d@));
            }
        },
    }
}

/// The rendered text of a whole document: what the serializer emits for it.
pub fn to_string(value: &ParsedData) -> (r: String)
    ensures
        r@ == spec_render_doc(value@),
{
    let mut buf = String::new();
    write_document(&mut buf, value);
    proof {
        assert(buf@ =~= spec_render_doc(value@));
    }
    buf
}

/// What the outside table renderer draws for a grid of cell text, with
/// rounded borders: a function of the cell text alone.
pub uninterp spec fn rounded_table_of(rows: Seq<Seq<Seq<char>>>) -> Seq<char>;

/// Relies on tabled's `Builder` (`push_record`, `build`) and its rounded
/// `Style`: the drawn table depends on the given cell text alone.
#[verifier::external_body]
pub(crate) fn tabled_render(records: &Vec<Vec<String>>) -> (r: String)
    ensures
        r@ == rounded_table_of(crate::parsedata::spec_records_view(records@)),
{
    let mut builder = tabled::builder::Builder::default();
    for row in records {
        builder.push_record(row.clone());
    }
    builder.build().with(tabled::settings::Style::rounded()).to_string()
}

/// Relies on `String::push`: appends exactly the one character.
#[verifier::external_body]
fn push_char(s: &mut String, c: char)
    ensures
        final(s)@ == old(s)@ + seq![c],
{
    s.push(c);
}

/// The scalar serializer: write methods append one scalar's rendered text
/// to the owned buffer; the composite methods hand the buffer to a
/// sub-serializer that manages framing and separators.
#[derive(Debug)]
pub struct PDSerializer {
    pub buffer: String,
}

impl PDSerializer {
    /// A serializer over an empty buffer.
    pub fn new() -> (r: PDSerializer)
        ensures
            r.buffer@ == Seq::<char>::empty(),
    {
        PDSerializer { buffer: String::new() }
    }

    /// Appends `true` or `false`.
    pub fn serialize_bool(&mut self, v: bool) -> (r: Result<(), TypstError>)
        ensures
            r is Ok,
            final(self).buffer@ == old(self).buffer@ + spec_render_value(SpecValue::Bool(v)),
    {
        if v {
            self.buffer.append("true");
        } else {
            self.buffer.append("false");
        }
        Ok(())
    }

    /// Appends the decimal text of a signed integer.
    pub fn serialize_i64(&mut self, v: i64) -> (r: Result<(), TypstError>)
        ensures
            r is Ok,
            final(self).buffer@ == old(self).buffer@ + spec_idec(v as int),
    {
        push_i64_dec(&mut self.buffer, v);
        Ok(())
    }

    /// Appends the decimal text of a signed integer.
    pub fn serialize_i32(&mut self, v: i32) -> (r: Result<(), TypstError>)
        ensures
            r is Ok,
            final(self).buffer@ == old(self).buffer@ + spec_idec(v as int),
    {
        self.serialize_i64(v as i64)
    }

    /// Appends the decimal text of a signed integer.
    pub fn serialize_i16(&mut self, v: i16) -> (r: Result<(), TypstError>)
        ensures
            r is Ok,
            final(self).buffer@ == old(self).buffer@ + spec_idec(v as int),
    {
        self.serialize_i64(v as i64)
    }

    /// Appends the decimal text of a signed integer.
    pub fn serialize_i8(&mut self, v: i8) -> (r: Result<(), TypstError>)
        ensures
            r is Ok,
            final(self).buffer@ == old(self).buffer@ + spec_idec(v as int),
    {
        self.serialize_i64(v as i64)
    }

    /// Appends the decimal text of an unsigned integer.
    pub fn serialize_u64(&mut self, v: u64) -> (r: Result<(), TypstError>)
        ensures
            r is Ok,
            final(self).buffer@ == old(self).buffer@ + spec_udec(v as nat),
    {
        push_u64_dec(&mut self.buffer, v);
        Ok(())
    }

    /// Appends the decimal text of an unsigned integer.
    pub fn serialize_u32(&mut self, v: u32) -> (r: Result<(), TypstError>)
        ensures
            r is Ok,
            final(self).buffer@ == old(self).buffer@ + spec_udec(v as nat),
    {
        self.serialize_u64(v as u64)
    }

    /// Appends the decimal text of an unsigned integer.
    pub fn serialize_u16(&mut self, v: u16) -> (r: Result<(), TypstError>)
        ensures
            r is Ok,
            final(self).buffer@ == old(self).buffer@ + spec_udec(v as nat),
    {
        self.serialize_u64(v as u64)
    }

    /// Appends the decimal text of an unsigned integer.
    pub fn serialize_u8(&mut self, v: u8) -> (r: Result<(), TypstError>)
        ensures
            r is Ok,
            final(self).buffer@ == old(self).buffer@ + spec_udec(v as nat),
    {
        self.serialize_u64(v as u64)
    }

    /// Appends one character, bare.
    pub fn serialize_char(&mut self, v: char) -> (r: Result<(), TypstError>)
        ensures
            r is Ok,
            final(self).buffer@ == old(self).buffer@ + seq![v],
    {
        push_char(&mut self.buffer, v);
        Ok(())
    }

    /// Appends a string, bare: the scalar string policy quotes nothing.
    pub fn serialize_str(&mut self, v: &str) -> (r: Result<(), TypstError>)
        ensures
            r is Ok,
            final(self).buffer@ == old(self).buffer@ + v@,
    {
        self.buffer.append(v);
        Ok(())
    }

    /// Appends a unit variant as `Name::Variant`.
    pub fn serialize_unit_variant(
        &mut self,
        name: &str,
        variant_index: u32,
        variant: &str,
    ) -> (r: Result<(), TypstError>)
        ensures
            r is Ok,
            final(self).buffer@ == old(self).buffer@ + name@ + "::"@ + variant@,
    {
        let _ = variant_index;
        self.buffer.append(name);
        self.buffer.append("::");
        self.buffer.append(variant);
        Ok(())
    }

    /// Appends the rendered text of a whole value.
    pub fn serialize_value(&mut self, v: &TypstValue) -> (r: Result<(), TypstError>)
        ensures
            r is Ok,
            final(self).buffer@ == old(self).buffer@ + spec_render_value(v@),
    {
        write_value(&mut self.buffer, v);
        Ok(())
    }

    /// Opens a bracketed sequence and hands the buffer to its serializer.
    pub fn serialize_seq(self) -> (r: PDSeqSerializer)
        ensures
            r.buffer@ == self.buffer@ + "["@,
            r.is_first == true,
    {
        let mut b = self.buffer;
        b.append("[");
        PDSeqSerializer { buffer: b, is_first: true }
    }

    /// Opens a parenthesized tuple and hands the buffer to its serializer.
    pub fn serialize_tuple(self) -> (r: PDTupleSerializer)
        ensures
            r.buffer@ == self.buffer@ + "("@,
            r.is_first == true,
    {
        let mut b = self.buffer;
        b.append("(");
        PDTupleSerializer { buffer: b, is_first: true }
    }

    /// Opens a braced dictionary and hands the buffer to its serializer.
    pub fn serialize_map(self) -> (r: PDMapSerializer)
        ensures
            r.buffer@ == self.buffer@ + "{ "@,
            r.is_first == true,
    {
        let mut b = self.buffer;
        b.append("{ ");
        PDMapSerializer { buffer: b, is_first: true }
    }
}

/// Writes the elements of a bracketed sequence, ", "-separated.
#[derive(Debug)]
pub struct PDSeqSerializer {
    pub buffer: String,
    pub is_first: bool,
}

impl PDSeqSerializer {
    /// Appends one element, preceded by the separator except the first time.
    pub fn serialize_element(&mut self, v: &TypstValue) -> (r: Result<(), TypstError>)
        ensures
            r is Ok,
            final(self).is_first == false,
            old(self).is_first ==> final(self).buffer@ == old(self).buffer@ + spec_render_value(
                v@,
            ),
            !old(self).is_first ==> final(self).buffer@ == old(self).buffer@ + ", "@
                + spec_render_value(v@),
    {
        if !self.is_first {
            self.buffer.append(", ");
        } else {
            self.is_first = false;
        }
        write_value(&mut self.buffer, v);
        Ok(())
    }

    /// Closes the sequence and hands the buffer back.
    pub fn end(self) -> (r: PDSerializer)
        ensures
            r.buffer@ == self.buffer@ + "]"@,
    {
        let mut b = self.buffer;
        b.append("]");
        PDSerializer { buffer: b }
    }
}

/// Writes the elements of a parenthesized tuple, ", "-separated.
#[derive(Debug)]
pub struct PDTupleSerializer {
    pub buffer: String,
    pub is_first: bool,
}

impl PDTupleSerializer {
    /// Appends one element, preceded by the separator except the first time.
    pub fn serialize_element(&mut self, v: &TypstValue) -> (r: Result<(), TypstError>)
        ensures
            r is Ok,
            final(self).is_first == false,
            old(self).is_first ==> final(self).buffer@ == old(self).buffer@ + spec_render_value(
                v@,
            ),
            !old(self).is_first ==> final(self).buffer@ == old(self).buffer@ + ", "@
                + spec_render_value(v@),
    {
        if !self.is_first {
            self.buffer.append(", ");
        } else {
            self.is_first = false;
        }
        write_value(&mut self.buffer, v);
        Ok(())
    }

    /// Closes the tuple and hands the buffer back.
    pub fn end(self) -> (r: PDSerializer)
        ensures
            r.buffer@ == self.buffer@ + ")"@,
    {
        let mut b = self.buffer;
        b.append(")");
        PDSerializer { buffer: b }
    }
}

/// Writes the entries of a braced dictionary, `key: value`, ", "-separated.
#[derive(Debug)]
pub struct PDMapSerializer {
    pub buffer: String,
    pub is_first: bool,
}

impl PDMapSerializer {
    /// Appends one key, preceded by the separator except the first time.
    pub fn serialize_key(&mut self, key: &str) -> (r: Result<(), TypstError>)
        ensures
            r is Ok,
            final(self).is_first == false,
            old(self).is_first ==> final(self).buffer@ == old(self).buffer@ + key@,
            !old(self).is_first ==> final(self).buffer@ == old(self).buffer@ + ", "@ + key@,
    {
        if !self.is_first {
            self.buffer.append(", ");
        } else {
            self.is_first = false;
        }
        self.buffer.append(key);
        Ok(())
    }

    /// Appends one value's rendered text.
    pub fn serialize_value(&mut self, v: &TypstValue) -> (r: Result<(), TypstError>)
        ensures
            r is Ok,
            final(self).is_first == old(self).is_first,
            final(self).buffer@ == old(self).buffer@ + spec_render_value(v@),
    {
        write_value(&mut self.buffer, v);
        Ok(())
    }

    /// Appends one `key: value` entry, separator included.
    pub fn serialize_entry(&mut self, key: &str, v: &TypstValue) -> (r: Result<(), TypstError>)
        ensures
            r is Ok,
            final(self).is_first == false,
            old(self).is_first ==> final(self).buffer@ == old(self).buffer@ + key@ + ": "@
                + spec_render_value(v@),
            !old(self).is_first ==> final(self).buffer@ == old(self).buffer@ + ", "@ + key@
                + ": "@ + spec_render_value(v@),
    {
        match self.serialize_key(key) {
            Ok(()) => {},
            Err(e) => {
                return Err(e);
            },
        }
        self.buffer.append(": ");
        self.serialize_value(v)
    }

    /// Closes the dictionary and hands the buffer back.
    pub fn end(self) -> (r: PDSerializer)
        ensures
            r.buffer@ == self.buffer@ + " }"@,
    {
        let mut b = self.buffer;
        b.append(" }");
        PDSerializer { buffer: b }
    }
}

/// Serialization is deterministic: documents with the same mathematical
/// shape render to identical text, so serializing one document twice
/// yields byte-identical output, with no iteration-order nondeterminism.
pub proof fn lemma_render_deterministic(a: ParsedData, b: ParsedData)
    requires
        a@ == b@,
    ensures
        spec_render_doc(a@) == spec_render_doc(b@),
{
}

/// The header zip policy: a row rendered under a header carries exactly
/// one entry per position up to the shorter of header and row, keyed in
/// header order; extra header columns beyond a short row are omitted, and
/// extra cells beyond the header are dropped.
pub proof fn lemma_header_zip_policy(h: Seq<Seq<char>>, row: Seq<SpecValue>)
    ensures
        spec_zip_entries(h, row).len() == (if h.len() <= row.len() {
            h.len()
        } else {
            row.len()
        }),
        forall|i: int|
            0 <= i < spec_zip_entries(h, row).len() ==> spec_zip_entries(h, row)[i] == (h[i],
            row[i]),
{
}

} // verus!
