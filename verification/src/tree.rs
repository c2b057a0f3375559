//! The generic decoded tree: what the black-box format decoders hand the
//! core. Every source format's native value tree is rebuilt as a `RawNode`
//! of plain values; the verified conversion `TypstValue::from_tree` then
//! applies the numeric policy and the key policy, failing explicitly on
//! anything the value model cannot represent.

use vstd::prelude::*;

use crate::error::TypstError;
use crate::value::SpecValue;
use crate::value::TypstValue;
use crate::value::float_mark;
use crate::value::float_marker;
use crate::value::lemma_values_view_push;
use crate::value::lemma_entries_view_push;
use crate::value::spec_entries_view;
use crate::value::spec_value_view;
use crate::value::spec_values_view;

verus! {

broadcast use {vstd::std_specs::vec::group_vec_axioms, vstd::seq::group_seq_axioms};

/// The mathematical shape of a decoded tree node.
pub enum SpecNode {
    Null,
    Bool(bool),
    Int(int),
    /// A non-integer number, as its rendered decimal text.
    Float(Seq<char>),
    /// A number that fits neither a 64-bit integer nor a double.
    BigNum,
    Text(Seq<char>),
    Arr(Seq<SpecNode>),
    Obj(Seq<(SpecNode, SpecNode)>),
    /// A construct the value model cannot represent.
    Other,
}

/// One node of a decoded source tree, already reduced to plain values.
/// Mapping keys stay nodes so that a non-string key can be rejected rather
/// than silently stringified.
#[derive(Debug, PartialEq)]
pub enum RawNode {
    Null,
    Bool(bool),
    Int(i64),
    /// A non-integer number, as its rendered decimal text.
    Float(String),
    /// A number that fits neither a 64-bit integer nor a double.
    BigNum,
    Text(String),
    Arr(Vec<RawNode>),
    Obj(Vec<(RawNode, RawNode)>),
    /// A construct the value model cannot represent.
    Other,
}

/// The view of a decoded tree node.
pub open spec fn spec_node_view(n: RawNode) -> SpecNode
    decreases n, 1nat,
{
    match n {
        RawNode::Null => SpecNode::Null,
        RawNode::Bool(b) => SpecNode::Bool(b),
        RawNode::Int(i) => SpecNode::Int(i as int),
        RawNode::Float(s) => SpecNode::Float(s@),
        RawNode::BigNum => SpecNode::BigNum,
        RawNode::Text(s) => SpecNode::Text(s@),
        RawNode::Arr(ns) => {
            proof {
                assert(decreases_to!(n => ns));
                assert(decreases_to!(ns => ns@));
            }
            SpecNode::Arr(spec_nodes_view(ns@))
        },
        RawNode::Obj(ps) => {
            proof {
                assert(decreases_to!(n => ps));
                assert(decreases_to!(ps => ps@));
            }
            SpecNode::Obj(spec_pairs_view(ps@))
        },
        RawNode::Other => SpecNode::Other,
    }
}

/// The view of a sequence of nodes.
pub open spec fn spec_nodes_view(ns: Seq<RawNode>) -> Seq<SpecNode>
    decreases ns, 0nat,
{
    if ns.len() == 0 {
        Seq::<SpecNode>::empty()
    } else {
        proof {
            assert(decreases_to!(ns => ns[0]));
            assert(decreases_to!(ns => ns.subrange(1, ns.len() as int)));
        }
        seq![spec_node_view(ns[0])] + spec_nodes_view(ns.subrange(1, ns.len() as int))
    }
}

/// The view of a sequence of key-value node pairs.
pub open spec fn spec_pairs_view(ps: Seq<(RawNode, RawNode)>) -> Seq<(SpecNode, SpecNode)>
    decreases ps, 0nat,
{
    if ps.len() == 0 {
        Seq::<(SpecNode, SpecNode)>::empty()
    } else {
        proof {
            assert(decreases_to!(ps => ps[0]));
            assert(decreases_to!(ps => ps.subrange(1, ps.len() as int)));
        }
        seq![(spec_node_view(ps[0].0), spec_node_view(ps[0].1))] + spec_pairs_view(
            ps.subrange(1, ps.len() as int),
        )
    }
}

/// A node-sequence view has one element for each node, the view of that node.
pub proof fn lemma_nodes_view(ns: Seq<RawNode>)
    ensures
        spec_nodes_view(ns).len() == ns.len(),
        forall|i: int|
            0 <= i < ns.len() ==> spec_nodes_view(ns)[i] == spec_node_view(#[trigger] ns[i]),
    decreases ns.len(),
{
    if ns.len() > 0 {
        let rest = ns.subrange(1, ns.len() as int);
        lemma_nodes_view(rest);
        assert forall|i: int|
            0 <= i < ns.len() implies spec_nodes_view(ns)[i] == spec_node_view(
            #[trigger] ns[i],
        ) by {
            if i > 0 {
                assert(rest[i - 1] == ns[i]);
                assert(spec_nodes_view(ns)[i] == spec_nodes_view(rest)[i - 1]);
            }
        }
    }
}

/// A pair-sequence view has one pair for each pair, each side viewed.
pub proof fn lemma_pairs_view(ps: Seq<(RawNode, RawNode)>)
    ensures
        spec_pairs_view(ps).len() == ps.len(),
        forall|i: int|
            0 <= i < ps.len() ==> spec_pairs_view(ps)[i] == (spec_node_view(
                (#[trigger] ps[i]).0,
            ), spec_node_view(ps[i].1)),
    decreases ps.len(),
{
    if ps.len() > 0 {
        let rest = ps.subrange(1, ps.len() as int);
        lemma_pairs_view(rest);
        assert forall|i: int|
            0 <= i < ps.len() implies spec_pairs_view(ps)[i] == (spec_node_view(
            (#[trigger] ps[i]).0,
        ), spec_node_view(ps[i].1)) by {
            if i > 0 {
                assert(rest[i - 1] == ps[i]);
                assert(spec_pairs_view(ps)[i] == spec_pairs_view(rest)[i - 1]);
            }
        }
    }
}

impl View for RawNode {
    type V = SpecNode;

    open spec fn view(&self) -> SpecNode {
        spec_node_view(*self)
    }
}

/// What converting a decoded node yields: the value, or the first error.
/// Numbers keep 64-bit integers as integers and carry other numerics as
/// float text; oversized numbers, non-string keys and unrepresentable
/// constructs fail explicitly, never coerce.
pub open spec fn spec_value_of(n: SpecNode) -> Result<SpecValue, TypstError>
    decreases n, 1nat,
{
    match n {
        SpecNode::Null => Ok(SpecValue::Null),
        SpecNode::Bool(b) => Ok(SpecValue::Bool(b)),
        SpecNode::Int(i) => Ok(SpecValue::Int(i)),
        SpecNode::Float(t) => Ok(SpecValue::Float(float_mark(t))),
        SpecNode::BigNum => Err(TypstError::UnsupportedNumber),
        SpecNode::Text(t) => Ok(SpecValue::Str(t)),
        SpecNode::Arr(items) => {
            proof {
                assert(decreases_to!(n => items));
            }
            match spec_values_of(items) {
                Ok(vs) => Ok(SpecValue::Array(vs)),
                Err(e) => Err(e),
            }
        },
        SpecNode::Obj(pairs) => {
            proof {
                assert(decreases_to!(n => pairs));
            }
            match spec_entries_of(pairs) {
                Ok(es) => Ok(SpecValue::Dict(es)),
                Err(e) => Err(e),
            }
        },
        SpecNode::Other => Err(TypstError::UnsupportedValueType),
    }
}

/// Converts a sequence of nodes, stopping at the first error.
pub open spec fn spec_values_of(items: Seq<SpecNode>) -> Result<Seq<SpecValue>, TypstError>
    decreases items, 0nat,
{
    if items.len() == 0 {
        Ok(Seq::<SpecValue>::empty())
    } else {
        proof {
            assert(decreases_to!(items => items[0]));
            assert(decreases_to!(items => items.subrange(1, items.len() as int)));
        }
        match spec_value_of(items[0]) {
            Err(e) => Err(e),
            Ok(v) => match spec_values_of(items.subrange(1, items.len() as int)) {
                Err(e) => Err(e),
                Ok(rest) => Ok(seq![v] + rest),
            },
        }
    }
}

/// Converts a sequence of key-value pairs, rejecting a non-string key
/// before looking at its value, stopping at the first error.
pub open spec fn spec_entries_of(pairs: Seq<(SpecNode, SpecNode)>) -> Result<
    Seq<(Seq<char>, SpecValue)>,
    TypstError,
>
    decreases pairs, 0nat,
{
    if pairs.len() == 0 {
        Ok(Seq::<(Seq<char>, SpecValue)>::empty())
    } else {
        proof {
            assert(decreases_to!(pairs => pairs[0]));
            assert(decreases_to!(pairs[0] => pairs[0].1));
            assert(decreases_to!(pairs => pairs.subrange(1, pairs.len() as int)));
        }
        match pairs[0].0 {
            SpecNode::Text(k) => match spec_value_of(pairs[0].1) {
                Err(e) => Err(e),
                Ok(v) => match spec_entries_of(pairs.subrange(1, pairs.len() as int)) {
                    Err(e) => Err(e),
                    Ok(rest) => Ok(seq![(k, v)] + rest),
                },
            },
            _ => Err(TypstError::NonStringKey),
        }
    }
}

/// The view of a conversion result.
pub open spec fn res_value_view(r: Result<TypstValue, TypstError>) -> Result<
    SpecValue,
    TypstError,
> {
    match r {
        Ok(v) => Ok(spec_value_view(v)),
        Err(e) => Err(e),
    }
}

/// Converts each node of `ns` into a value, per `spec_values_of`: the
/// values in order, or the first error.
#[verifier::loop_isolation(false)]
pub fn values_from_nodes(ns: &Vec<RawNode>) -> (r: Result<Vec<TypstValue>, TypstError>)
    ensures
        (match r {
            Ok(vs) => spec_values_of(spec_nodes_view(ns@)) == Ok::<_, TypstError>(
                spec_values_view(vs@),
            ),
            Err(e) => spec_values_of(spec_nodes_view(ns@)) == Err::<Seq<SpecValue>, _>(e),
        }),
    decreases ns, 0nat,
{
    proof {
        assert(decreases_to!(ns => ns@));
        lemma_nodes_view(ns@);
    }
    let ghost sitems = spec_nodes_view(ns@);
    let mut out: Vec<TypstValue> = Vec::new();
    let mut j: usize = 0;
    assert(sitems.subrange(0, sitems.len() as int) =~= sitems);
    assert(spec_values_view(out@) =~= Seq::<SpecValue>::empty());
    while j < ns.len()
        invariant
            j <= ns.len(),
            spec_values_view(out@).len() == j,
            spec_values_of(sitems) == (match spec_values_of(
                sitems.subrange(j as int, sitems.len() as int),
            ) {
                Err(e) => Err::<Seq<SpecValue>, TypstError>(e),
                Ok(rest) => Ok(spec_values_view(out@) + rest),
            }),
        decreases ns@.len() - j,
    {
        let ghost suffix = sitems.subrange(j as int, sitems.len() as int);
        proof {
            assert(suffix[0] == sitems[j as int]);
            assert(suffix.subrange(1, suffix.len() as int) =~= sitems.subrange(
                j as int + 1,
                sitems.len() as int,
            ));
            assert(decreases_to!(ns => ns@[j as int]));
        }
        match TypstValue::from_tree(&ns[j]) {
            Ok(v) => {
                proof {
                    lemma_values_view_push(out@, v);
                }
                let ghost out0 = out@;
                out.push(v);
                proof {
                    match spec_values_of(sitems.subrange(j as int + 1, sitems.len() as int)) {
                        Ok(rest) => {
                            assert(spec_values_view(out0) + (seq![spec_value_view(v)] + rest)
                                =~= spec_values_view(out@) + rest);
                        },
                        Err(_) => {},
                    }
                }
                j = j + 1;
            },
            Err(e) => {
                assert(spec_values_of(suffix) == Err::<Seq<SpecValue>, TypstError>(e));
                return Err(e);
            },
        }
    }
    proof {
        assert(sitems.subrange(j as int, sitems.len() as int) =~= Seq::<SpecNode>::empty());
        assert(spec_values_view(out@) + Seq::<SpecValue>::empty() =~= spec_values_view(out@));
    }
    Ok(out)
}

/// Converts each key-value pair of `ps` into a dictionary entry, per
/// `spec_entries_of`: a non-string key fails before its value is looked at.
#[verifier::loop_isolation(false)]
pub fn entries_from_pairs(ps: &Vec<(RawNode, RawNode)>) -> (r: Result<
    Vec<(String, TypstValue)>,
    TypstError,
>)
    ensures
        (match r {
            Ok(es) => spec_entries_of(spec_pairs_view(ps@)) == Ok::<_, TypstError>(
                spec_entries_view(es@),
            ),
            Err(e) => spec_entries_of(spec_pairs_view(ps@)) == Err::<
                Seq<(Seq<char>, SpecValue)>,
                _,
            >(e),
        }),
    decreases ps, 0nat,
{
    proof {
        assert(decreases_to!(ps => ps@));
        lemma_pairs_view(ps@);
    }
    let ghost spairs = spec_pairs_view(ps@);
    let mut out: Vec<(String, TypstValue)> = Vec::new();
    let mut j: usize = 0;
    assert(spairs.subrange(0, spairs.len() as int) =~= spairs);
    assert(spec_entries_view(out@) =~= Seq::<(Seq<char>, SpecValue)>::empty());
    while j < ps.len()
        invariant
            j <= ps.len(),
            spec_entries_view(out@).len() == j,
            spec_entries_of(spairs) == (match spec_entries_of(
                spairs.subrange(j as int, spairs.len() as int),
            ) {
                Err(e) => Err::<Seq<(Seq<char>, SpecValue)>, TypstError>(e),
                Ok(rest) => Ok(spec_entries_view(out@) + rest),
            }),
        decreases ps@.len() - j,
    {
        let ghost suffix = spairs.subrange(j as int, spairs.len() as int);
        proof {
            assert(suffix[0] == spairs[j as int]);
            assert(suffix.subrange(1, suffix.len() as int) =~= spairs.subrange(
                j as int + 1,
                spairs.len() as int,
            ));
        }
        let p = &ps[j];
        match &p.0 {
            RawNode::Text(k) => {
                proof {
                    assert(decreases_to!(ps => ps@[j as int]));
                    assert(decreases_to!(ps@[j as int] => ps@[j as int].1));
                }
                match TypstValue::from_tree(&p.1) {
                    Ok(v) => {
                        let key = k.clone();
                        proof {
                            lemma_entries_view_push(out@, (key, v));
                        }
                        let ghost out0 = out@;
                        out.push((key, v));
                        proof {
                            match spec_entries_of(
                                spairs.subrange(j as int + 1, spairs.len() as int),
                            ) {
                                Ok(rest) => {
                                    assert(spec_entries_view(out0) + (seq![
                                        (k@, spec_value_view(v)),
                                    ] + rest) =~= spec_entries_view(out@) + rest);
                                },
                                Err(_) => {},
                            }
                        }
                        j = j + 1;
                    },
                    Err(e) => {
                        assert(spec_entries_of(suffix) == Err::<
                            Seq<(Seq<char>, SpecValue)>,
                            TypstError,
                        >(e));
                        return Err(e);
                    },
                }
            },
            _ => {
                assert(spec_entries_of(suffix) == Err::<
                    Seq<(Seq<char>, SpecValue)>,
                    TypstError,
                >(TypstError::NonStringKey));
                return Err(TypstError::NonStringKey);
            },
        }
    }
    proof {
        assert(spairs.subrange(j as int, spairs.len() as int) =~= Seq::<
            (SpecNode, SpecNode),
        >::empty());
        assert(spec_entries_view(out@) + Seq::<(Seq<char>, SpecValue)>::empty()
            =~= spec_entries_view(out@));
    }
    Ok(out)
}

impl TypstValue {
    /// Converts a decoded tree node into a typed value, per
    /// `spec_value_of`: the total mapping from the generic decoded tree,
    /// failing explicitly on oversized numbers, non-string keys, and
    /// constructs outside the value model.
    pub fn from_tree(n: &RawNode) -> (r: Result<TypstValue, TypstError>)
        ensures
            res_value_view(r) == spec_value_of(n@),
        decreases n, 1nat,
    {
        match n {
            RawNode::Null => Ok(TypstValue::Null),
            RawNode::Bool(b) => Ok(TypstValue::Bool(*b)),
            RawNode::Int(i) => Ok(TypstValue::Int(*i)),
            RawNode::Float(t) => Ok(TypstValue::Float(float_marker(t.clone()))),
            RawNode::BigNum => Err(TypstError::UnsupportedNumber),
            RawNode::Text(t) => Ok(TypstValue::Str(t.clone())),
            RawNode::Arr(ns) => {
                proof {
                    assert(decreases_to!(n => ns));
                }
                match values_from_nodes(ns) {
                    Ok(vs) => Ok(TypstValue::Array(vs)),
                    Err(e) => Err(e),
                }
            },
            RawNode::Obj(ps) => {
                proof {
                    assert(decreases_to!(n => ps));
                }
                match entries_from_pairs(ps) {
                    Ok(es) => Ok(TypstValue::Dict(es)),
                    Err(e) => Err(e),
                }
            },
            RawNode::Other => Err(TypstError::UnsupportedValueType),
        }
    }
}

} // verus!
