//! The typed value model: a closed tagged union able to represent every
//! primitive and composite value of the supported source formats, plus the
//! string-inference rule that turns untyped cell text into a value.
//!
//! Floating-point numbers are carried as their rendered decimal text: the
//! model never computes with them, it only frames and re-emits them, and a
//! marker rule guarantees the text always shows a decimal point or exponent.

use vstd::prelude::*;
use vstd::string::StrSliceExecFns;
use vstd::string::StringExecFns;

use crate::num::is_dec_digit;
use crate::num::parse_i64;
use crate::num::spec_parse_i64;

verus! {

broadcast use {vstd::std_specs::vec::group_vec_axioms, vstd::seq::group_seq_axioms};

/// The mathematical shape of a value: what contracts and the render
/// specification speak of.
pub enum SpecValue {
    Null,
    Bool(bool),
    Int(int),
    /// The rendered decimal text of a floating-point number.
    Float(Seq<char>),
    Str(Seq<char>),
    Tuple(Seq<SpecValue>),
    Dict(Seq<(Seq<char>, SpecValue)>),
    Array(Seq<SpecValue>),
}

/// A single scalar or composite datum. `Tuple` is semantically identical to
/// `Array` but renders with parentheses instead of brackets; `Dict` preserves
/// the insertion order of its entries, so rendering is deterministic.
#[derive(Debug, PartialEq)]
pub enum TypstValue {
    Null,
    Bool(bool),
    Int(i64),
    /// A floating-point number, held as its rendered decimal text.
    Float(String),
    Str(String),
    Tuple(Vec<TypstValue>),
    Dict(Vec<(String, TypstValue)>),
    Array(Vec<TypstValue>),
}

/// The view of a value: its mathematical shape.
pub open spec fn spec_value_view(v: TypstValue) -> SpecValue
    decreases v, 1nat,
{
    match v {
        TypstValue::Null => SpecValue::Null,
        TypstValue::Bool(b) => SpecValue::Bool(b),
        TypstValue::Int(i) => SpecValue::Int(i as int),
        TypstValue::Float(s) => SpecValue::Float(s@),
        TypstValue::Str(s) => SpecValue::Str(s@),
        TypstValue::Tuple(vs) => {
            proof {
                assert(decreases_to!(v => vs));
                assert(decreases_to!(vs => vs@));
            }
            SpecValue::Tuple(spec_values_view(vs@))
        },
        TypstValue::Dict(es) => {
            proof {
                assert(decreases_to!(v => es));
                assert(decreases_to!(es => es@));
            }
            SpecValue::Dict(spec_entries_view(es@))
        },
        TypstValue::Array(vs) => {
            proof {
                assert(decreases_to!(v => vs));
                assert(decreases_to!(vs => vs@));
            }
            SpecValue::Array(spec_values_view(vs@))
        },
    }
}

/// The view of a sequence of values.
pub open spec fn spec_values_view(vs: Seq<TypstValue>) -> Seq<SpecValue>
    decreases vs, 0nat,
{
    if vs.len() == 0 {
        Seq::<SpecValue>::empty()
    } else {
        proof {
            assert(decreases_to!(vs => vs[0]));
            assert(decreases_to!(vs => vs.subrange(1, vs.len() as int)));
        }
        seq![spec_value_view(vs[0])] + spec_values_view(vs.subrange(1, vs.len() as int))
    }
}

/// The view of a sequence of dictionary entries.
pub open spec fn spec_entries_view(es: Seq<(String, TypstValue)>) -> Seq<(Seq<char>, SpecValue)>
    decreases es, 0nat,
{
    if es.len() == 0 {
        Seq::<(Seq<char>, SpecValue)>::empty()
    } else {
        proof {
            assert(decreases_to!(es => es[0]));
            assert(decreases_to!(es => es.subrange(1, es.len() as int)));
        }
        seq![(es[0].0@, spec_value_view(es[0].1))] + spec_entries_view(
            es.subrange(1, es.len() as int),
        )
    }
}

/// A sequence view has one element for each value, the view of that value.
pub proof fn lemma_values_view(vs: Seq<TypstValue>)
    ensures
        spec_values_view(vs).len() == vs.len(),
        forall|i: int|
            0 <= i < vs.len() ==> spec_values_view(vs)[i] == spec_value_view(#[trigger] vs[i]),
    decreases vs.len(),
{
    if vs.len() > 0 {
        let rest = vs.subrange(1, vs.len() as int);
        lemma_values_view(rest);
        assert forall|i: int|
            0 <= i < vs.len() implies spec_values_view(vs)[i] == spec_value_view(
            #[trigger] vs[i],
        ) by {
            if i > 0 {
                assert(rest[i - 1] == vs[i]);
                assert(spec_values_view(vs)[i] == spec_values_view(rest)[i - 1]);
            }
        }
    }
}

/// An entry-sequence view has one entry for each entry, key view paired with
/// value view.
pub proof fn lemma_entries_view(es: Seq<(String, TypstValue)>)
    ensures
        spec_entries_view(es).len() == es.len(),
        forall|i: int|
            0 <= i < es.len() ==> spec_entries_view(es)[i] == ((#[trigger] es[i]).0@,
            spec_value_view(es[i].1)),
    decreases es.len(),
{
    if es.len() > 0 {
        let rest = es.subrange(1, es.len() as int);
        lemma_entries_view(rest);
        assert forall|i: int|
            0 <= i < es.len() implies spec_entries_view(es)[i] == ((#[trigger] es[i]).0@,
        spec_value_view(es[i].1)) by {
            if i > 0 {
                assert(rest[i - 1] == es[i]);
                assert(spec_entries_view(es)[i] == spec_entries_view(rest)[i - 1]);
            }
        }
    }
}

/// Appending a value to a sequence appends its view to the sequence view.
pub proof fn lemma_values_view_push(s: Seq<TypstValue>, x: TypstValue)
    ensures
        spec_values_view(s.push(x)) == spec_values_view(s).push(spec_value_view(x)),
{
    lemma_values_view(s.push(x));
    lemma_values_view(s);
    assert forall|i: int|
        0 <= i < s.push(x).len() implies spec_values_view(s.push(x))[i] == spec_values_view(
        s,
    ).push(spec_value_view(x))[i] by {
        assert(spec_values_view(s.push(x))[i] == spec_value_view(s.push(x)[i]));
        if i < s.len() {
            assert(s.push(x)[i] == s[i]);
        } else {
            assert(s.push(x)[i] == x);
        }
    }
    assert(spec_values_view(s.push(x)) =~= spec_values_view(s).push(spec_value_view(x)));
}

/// Appending an entry to a sequence appends its view to the sequence view.
pub proof fn lemma_entries_view_push(s: Seq<(String, TypstValue)>, x: (String, TypstValue))
    ensures
        spec_entries_view(s.push(x)) == spec_entries_view(s).push((x.0@, spec_value_view(x.1))),
{
    lemma_entries_view(s.push(x));
    lemma_entries_view(s);
    assert forall|i: int|
        0 <= i < s.push(x).len() implies spec_entries_view(s.push(x))[i] == spec_entries_view(
        s,
    ).push((x.0@, spec_value_view(x.1)))[i] by {
        assert(spec_entries_view(s.push(x))[i] == ((s.push(x)[i]).0@, spec_value_view(
            s.push(x)[i].1,
        )));
        if i < s.len() {
            assert(s.push(x)[i] == s[i]);
        } else {
            assert(s.push(x)[i] == x);
        }
    }
    assert(spec_entries_view(s.push(x)) =~= spec_entries_view(s).push(
        (x.0@, spec_value_view(x.1)),
    ));
}

impl View for TypstValue {
    type V = SpecValue;

    open spec fn view(&self) -> SpecValue {
        spec_value_view(*self)
    }
}

/// Whether every character of `s` is a decimal digit or a minus sign: the
/// shape of a rendered number that shows no decimal point and no exponent.
pub open spec fn plain_int_shape(s: Seq<char>) -> bool {
    forall|i: int| 0 <= i < s.len() ==> (is_dec_digit(#[trigger] s[i]) || s[i] == '-')
}

/// Rendered float text, with ".0" appended when the text would otherwise
/// look like a bare integer: a float never renders without a decimal point
/// or an exponent.
pub open spec fn float_mark(s: Seq<char>) -> Seq<char> {
    if plain_int_shape(s) {
        s + ".0"@
    } else {
        s
    }
}

/// Appends the ".0" marker when the rendered number text shows neither a
/// decimal point nor an exponent nor any other non-integer character.
pub fn float_marker(t: String) -> (r: String)
    ensures
        r@ == float_mark(t@),
{
    let n = t.as_str().unicode_len();
    let mut i: usize = 0;
    let mut plain = true;
    while i < n && plain
        invariant
            i <= n,
            n == t@.len(),
            plain ==> forall|j: int|
                0 <= j < i ==> (is_dec_digit(#[trigger] t@[j]) || t@[j] == '-'),
            !plain ==> !plain_int_shape(t@),
        decreases n - i + (if plain { 1int } else { 0int }),
    {
        let c = t.as_str().get_char(i);
        let u = c as u32;
        if !(48 <= u && u <= 57) && c != '-' {
            assert(!(is_dec_digit(t@[i as int]) || t@[i as int] == '-'));
            plain = false;
        } else {
            i = i + 1;
        }
    }
    if plain {
        assert(plain_int_shape(t@));
        let mut r = t;
        r.append(".0");
        r
    } else {
        t
    }
}

/// The marker rule's guarantee: rendered float text never has the shape
/// of a bare integer, so a float always shows a decimal point, an
/// exponent, or another non-integer character.
pub proof fn lemma_float_mark_not_integer_shape(s: Seq<char>)
    ensures
        !plain_int_shape(float_mark(s)),
{
    if plain_int_shape(s) {
        reveal_strlit(".0");
        assert(float_mark(s)[s.len() as int] == '.');
        assert(!(is_dec_digit('.') || '.' == '-'));
    }
}

/// What the outside number parser accepts and renders for a piece of cell
/// text: `None` when the text is not a number, otherwise the rendered
/// decimal text of the parsed number. The result depends on the characters
/// of the input alone.
pub uninterp spec fn float_repr(s: Seq<char>) -> Option<Seq<char>>;

/// Relies on serde_json's number parsing (`serde_json::from_str` for
/// `serde_json::Number`) and on that number's display: it accepts a JSON
/// number (integer, fraction or exponent form) and renders it in decimal,
/// keeping a decimal point or exponent for non-integer values. Both parse
/// and display depend only on the characters of the input.
#[verifier::external_body]
fn parse_float_cell(s: &str) -> (r: Option<String>)
    ensures
        r matches Some(t) ==> float_repr(s@) == Some(t@),
        r is None ==> float_repr(s@) is None,
{
    match serde_json::from_str::<serde_json::Number>(s) {
        Ok(n) => Some(n.to_string()),
        Err(_) => None,
    }
}

/// Character-by-character string equality.
pub fn str_eq(a: &str, b: &str) -> (r: bool)
    ensures
        r == (a@ == b@),
{
    let n = a.unicode_len();
    let m = b.unicode_len();
    if n != m {
        assert(a@.len() != b@.len());
        return false;
    }
    let mut i: usize = 0;
    while i < n
        invariant
            i <= n,
            n == a@.len(),
            n == b@.len(),
            forall|j: int| 0 <= j < i ==> a@[j] == b@[j],
        decreases n - i,
    {
        if a.get_char(i) != b.get_char(i) {
            return false;
        }
        i = i + 1;
    }
    proof {
        assert(a@ =~= b@);
    }
    true
}

/// The string-inference rule for untyped cell text. The order is
/// significant: the empty string is null; the boolean literals come first;
/// a 64-bit integer is tried before a float, so "3" infers as an integer;
/// any remaining text stays a string.
pub open spec fn spec_from_cell(s: Seq<char>) -> SpecValue {
    if s.len() == 0 {
        SpecValue::Null
    } else if s == "true"@ {
        SpecValue::Bool(true)
    } else if s == "false"@ {
        SpecValue::Bool(false)
    } else {
        match spec_parse_i64(s) {
            Some(v) => SpecValue::Int(v),
            None => match float_repr(s) {
                Some(t) => SpecValue::Float(float_mark(t)),
                None => SpecValue::Str(s),
            },
        }
    }
}

/// The string-inference rule is total and ordered: every text infers to
/// exactly one scalar and never to a composite. The empty text is null;
/// the exact boolean literals come next; a text that parses as a 64-bit
/// integer is an integer before the float rule sees it; a remaining text
/// the number parser accepts is a float; everything else stays a string.
pub proof fn lemma_from_cell_total(s: Seq<char>)
    ensures
        spec_from_cell(s) is Null <==> s.len() == 0,
        spec_from_cell(s) is Bool <==> (s.len() != 0 && (s == "true"@ || s == "false"@)),
        spec_from_cell(s) is Int <==> (s.len() != 0 && s != "true"@ && s != "false"@
            && spec_parse_i64(s) is Some),
        spec_from_cell(s) is Float <==> (s.len() != 0 && s != "true"@ && s != "false"@
            && spec_parse_i64(s) is None && float_repr(s) is Some),
        spec_from_cell(s) is Str <==> (s.len() != 0 && s != "true"@ && s != "false"@
            && spec_parse_i64(s) is None && float_repr(s) is None),
{
}

impl TypstValue {
    /// Infers a typed value from untyped cell text, per the
    /// order-significant rule of `spec_from_cell`.
    pub fn from_cell(s: &str) -> (r: TypstValue)
        ensures
            r@ == spec_from_cell(s@),
    {
        if s.unicode_len() == 0 {
            return TypstValue::Null;
        }
        if str_eq(s, "true") {
            return TypstValue::Bool(true);
        }
        if str_eq(s, "false") {
            return TypstValue::Bool(false);
        }
        match parse_i64(s) {
            Some(v) => TypstValue::Int(v),
            None => match parse_float_cell(s) {
                Some(t) => TypstValue::Float(float_marker(t)),
                None => TypstValue::Str(s.to_owned()),
            },
        }
    }
}

} // verus!
