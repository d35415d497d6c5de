//! Reading attributes: locating `#[metrics(..)]` / `#[metric(..)]`, doc
//! comments, literals and label lists.

use vstd::prelude::*;
use crate::model::{
    attr_name_str, attr_name_text, check_ident, ident_is, ArrayElem, AttrName, Attribute,
    Diagnostic, LabelPair, LabelValue, Leaf, Lit, Problem, Value, ValueKind,
};
use crate::seqs::{lemma_map_err_stays, lemma_map_step, map_until_err, vec_result};
use crate::text::{concat3, trim, trimmed};

verus! {

/// Whether attribute `a` is the attribute `name`.
pub open spec fn is_named(a: Attribute, name: AttrName) -> bool {
    ident_is(a.ident, attr_name_text(name))
}

/// The positions, in order, of the attributes named `name`.
pub open spec fn named_positions(attrs: Seq<Attribute>, name: AttrName) -> Seq<int>
    decreases attrs.len(),
{
    if attrs.len() == 0 {
        Seq::empty()
    } else {
        let p = named_positions(attrs.drop_last(), name);
        if is_named(attrs.last(), name) {
            p.push(attrs.len() - 1)
        } else {
            p
        }
    }
}

/// The attribute `name` among `attrs`: absent, at one position, or refused at
/// its second occurrence.
pub open spec fn single_attr(attrs: Seq<Attribute>, name: AttrName) -> Result<Option<int>, Diagnostic> {
    let p = named_positions(attrs, name);
    if p.len() == 0 {
        Ok(None)
    } else if p.len() == 1 {
        Ok(Some(p[0]))
    } else {
        Err(Diagnostic { node: attrs[p[1]].node, problem: Problem::DuplicateAttribute(name) })
    }
}

/// The attribute `name` among the attributes of the item at `owner`, which
/// must carry it.
pub open spec fn required_attr(attrs: Seq<Attribute>, owner: usize, name: AttrName) -> Result<int, Diagnostic> {
    match single_attr(attrs, name) {
        Err(e) => Err(e),
        Ok(None) => Err(Diagnostic { node: owner, problem: Problem::MissingAttribute(name) }),
        Ok(Some(i)) => Ok(i),
    }
}

proof fn lemma_named_positions_prefix(attrs: Seq<Attribute>, name: AttrName, k: int)
    requires
        0 <= k <= attrs.len(),
    ensures
        named_positions(attrs.take(k), name).len() <= named_positions(attrs, name).len(),
        forall|j: int|
            0 <= j < named_positions(attrs.take(k), name).len() ==> named_positions(attrs.take(k), name)[j]
                == named_positions(attrs, name)[j],
    decreases attrs.len(),
{
    if k == attrs.len() {
        assert(attrs.take(k) =~= attrs);
    } else {
        let d = attrs.drop_last();
        lemma_named_positions_prefix(d, name, k);
        assert(d.take(k) =~= attrs.take(k));
    }
}

pub(crate) proof fn lemma_named_positions_bounds(attrs: Seq<Attribute>, name: AttrName)
    ensures
        forall|j: int|
            0 <= j < named_positions(attrs, name).len() ==> {
                let p = #[trigger] named_positions(attrs, name)[j];
                0 <= p < attrs.len() && is_named(attrs[p], name)
            },
    decreases attrs.len(),
{
    if attrs.len() > 0 {
        let d = attrs.drop_last();
        lemma_named_positions_bounds(d, name);
        assert forall|j: int| 0 <= j < named_positions(d, name).len() implies d[named_positions(d, name)[j]]
            == attrs[named_positions(d, name)[j]] by {}
    }
}

/// Locates the attribute `name` among `attrs`: `None` when absent, its
/// position when it occurs once, and a refusal at the second occurrence when it
/// occurs more than once.
pub fn parse_single_attr(attrs: &Vec<Attribute>, name: AttrName) -> (r: Result<Option<usize>, Diagnostic>)
    ensures
        match r {
            Ok(Some(i)) => i < attrs.len() && single_attr(attrs@, name) == Ok::<Option<int>, Diagnostic>(
                Some(i as int),
            ),
            Ok(None) => single_attr(attrs@, name) == Ok::<Option<int>, Diagnostic>(None),
            Err(e) => single_attr(attrs@, name) == Err::<Option<int>, Diagnostic>(e),
        },
{
    let text = attr_name_str(name);
    let mut first: Option<usize> = None;
    let mut i: usize = 0;
    while i < attrs.len()
        invariant
            i <= attrs.len(),
            text@ == attr_name_text(name),
            first matches Some(f) ==> f < i,
            match first {
                None => named_positions(attrs@.take(i as int), name) =~= Seq::<int>::empty(),
                Some(f) => named_positions(attrs@.take(i as int), name) =~= seq![f as int],
            },
        decreases attrs.len() - i,
    {
        let hit = check_ident(&attrs[i].ident, text);
        proof {
            assert(attrs@.take(i + 1).drop_last() =~= attrs@.take(i as int));
        }
        if hit {
            match first {
                None => {
                    first = Some(i);
                },
                Some(f) => {
                    proof {
                        lemma_named_positions_prefix(attrs@, name, i + 1);
                        assert(named_positions(attrs@.take(i + 1), name) =~= seq![f as int, i as int]);
                    }
                    return Err(Diagnostic { node: attrs[i].node, problem: Problem::DuplicateAttribute(name) });
                },
            }
        }
        i = i + 1;
    }
    proof {
        assert(attrs@.take(attrs.len() as int) =~= attrs@);
    }
    Ok(first)
}

/// Locates the attribute `name`, which the item at `owner` must carry.
pub fn parse_single_required_attr(attrs: &Vec<Attribute>, owner: usize, name: AttrName) -> (r: Result<usize, Diagnostic>)
    ensures
        match r {
            Ok(i) => i < attrs.len() && required_attr(attrs@, owner, name) == Ok::<int, Diagnostic>(i as int),
            Err(e) => required_attr(attrs@, owner, name) == Err::<int, Diagnostic>(e),
        },
{
    match parse_single_attr(attrs, name) {
        Err(e) => Err(e),
        Ok(None) => Err(Diagnostic { node: owner, problem: Problem::MissingAttribute(name) }),
        Ok(Some(i)) => Ok(i),
    }
}

/// The trimmed texts of the `#[path = "text"]` attributes (doc comments), in order.
pub open spec fn doc_lines(attrs: Seq<Attribute>) -> Seq<Seq<char>>
    decreases attrs.len(),
{
    if attrs.len() == 0 {
        Seq::empty()
    } else {
        let p = doc_lines(attrs.drop_last());
        match attrs.last().str_value {
            Some(v) => p.push(trimmed(v@)),
            None => p,
        }
    }
}

/// The lines joined by single spaces.
pub open spec fn join_spaced(lines: Seq<Seq<char>>) -> Seq<char>
    decreases lines.len(),
{
    if lines.len() == 0 {
        Seq::empty()
    } else if lines.len() == 1 {
        lines[0]
    } else {
        join_spaced(lines.drop_last()) + " "@ + lines.last()
    }
}

/// The description given by doc comments: their trimmed lines joined by
/// single spaces, or `None` when there is none.
pub open spec fn docs_text(attrs: Seq<Attribute>) -> Option<Seq<char>> {
    let lines = doc_lines(attrs);
    if lines.len() == 0 {
        None
    } else {
        Some(join_spaced(lines))
    }
}

/// The description given by the doc comments among `attrs`.
pub fn parse_docs_to_string(attrs: &Vec<Attribute>) -> (r: Result<Option<String>, Diagnostic>)
    ensures
        r is Ok,
        match r {
            Ok(Some(s)) => docs_text(attrs@) == Some(s@),
            Ok(None) => docs_text(attrs@) is None,
            Err(_) => false,
        },
{
    let mut doc_str: Option<String> = None;
    let mut i: usize = 0;
    while i < attrs.len()
        invariant
            i <= attrs.len(),
            match doc_str {
                Some(s) => doc_lines(attrs@.take(i as int)).len() > 0 && s@ == join_spaced(
                    doc_lines(attrs@.take(i as int)),
                ),
                None => doc_lines(attrs@.take(i as int)).len() == 0,
            },
        decreases attrs.len() - i,
    {
        proof {
            assert(attrs@.take(i + 1).drop_last() =~= attrs@.take(i as int));
        }
        match &attrs[i].str_value {
            Some(v) => {
                proof {
                    let p = doc_lines(attrs@.take(i as int));
                    assert(p.push(trimmed(v@)).drop_last() =~= p);
                }
                let doc_value = trim(v.as_str());
                doc_str = match doc_str {
                    Some(prev) => Some(concat3(prev.as_str(), " ", doc_value.as_str())),
                    None => Some(doc_value),
                };
            },
            None => {},
        }
        i = i + 1;
    }
    proof {
        assert(attrs@.take(attrs.len() as int) =~= attrs@);
    }
    Ok(doc_str)
}

/// The literal of a value, or a refusal when the value is not a literal.
pub open spec fn expr_lit(v: Value) -> Result<Lit, Diagnostic> {
    match v.kind {
        ValueKind::Lit(l) => Ok(l),
        _ => Err(Diagnostic { node: v.node, problem: Problem::NotLiteral }),
    }
}

/// The text of a string literal at `node`, or a refusal.
pub open spec fn str_lit(l: Lit, node: usize) -> Result<String, Diagnostic> {
    match l {
        Lit::Str(s) => Ok(s),
        _ => Err(Diagnostic { node, problem: Problem::NotStrLiteral }),
    }
}

/// The value of a boolean literal at `node`, or a refusal.
pub open spec fn bool_lit(l: Lit, node: usize) -> Result<bool, Diagnostic> {
    match l {
        Lit::Bool(b) => Ok(b),
        _ => Err(Diagnostic { node, problem: Problem::NotBoolLiteral }),
    }
}

/// The text of the string literal `lit`, found at `node`.
pub fn parse_str_lit(lit: &Lit, node: usize) -> (r: Result<String, Diagnostic>)
    ensures
        r == str_lit(*lit, node),
{
    match lit {
        Lit::Str(s) => Ok(s.clone()),
        _ => Err(Diagnostic { node, problem: Problem::NotStrLiteral }),
    }
}

/// The value of the boolean literal `lit`, found at `node`.
pub fn parse_bool_lit(lit: &Lit, node: usize) -> (r: Result<bool, Diagnostic>)
    ensures
        r == bool_lit(*lit, node),
{
    match lit {
        Lit::Bool(b) => Ok(*b),
        _ => Err(Diagnostic { node, problem: Problem::NotBoolLiteral }),
    }
}

/// The literal that `value` is.
pub fn parse_expr_lit(value: &Value) -> (r: Result<&Lit, Diagnostic>)
    ensures
        match r {
            Ok(l) => expr_lit(*value) == Ok::<Lit, Diagnostic>(*l),
            Err(e) => expr_lit(*value) == Err::<Lit, Diagnostic>(e),
        },
{
    match &value.kind {
        ValueKind::Lit(l) => Ok(l),
        _ => Err(Diagnostic { node: value.node, problem: Problem::NotLiteral }),
    }
}

/// The value that a label takes from a tuple element: the text of a string
/// literal, or else the expression itself.
pub open spec fn leaf_value(l: Leaf) -> LabelValue {
    match l.lit {
        Some(Lit::Str(s)) => LabelValue::Text(s),
        _ => LabelValue::Expr(l.tokens),
    }
}

/// The label written by one array element `("key", value)`, or a refusal.
pub open spec fn label_of(e: ArrayElem) -> Result<LabelPair, Diagnostic> {
    match e.tuple {
        None => Err(Diagnostic { node: e.node, problem: Problem::LabelNotTuple }),
        Some(elems) => if elems@.len() != 2 {
            Err(Diagnostic { node: e.node, problem: Problem::LabelArity })
        } else {
            let k = elems@[0];
            match k.lit {
                None => Err(Diagnostic { node: k.node, problem: Problem::NotLiteral }),
                Some(Lit::Str(s)) => Ok(LabelPair { key: s, value: leaf_value(elems@[1]) }),
                Some(_) => Err(Diagnostic { node: k.node, problem: Problem::NotStrLiteral }),
            }
        },
    }
}

/// The labels written by `labels = [("k", v), ...]`, or the first refusal.
pub open spec fn labels_of(v: Value) -> Result<Seq<LabelPair>, Diagnostic> {
    match v.kind {
        ValueKind::Array(elems) => map_until_err(elems@, |e: ArrayElem| label_of(e)),
        _ => Err(Diagnostic { node: v.node, problem: Problem::LabelsNotArray }),
    }
}

fn parse_label(e: &ArrayElem) -> (r: Result<LabelPair, Diagnostic>)
    ensures
        r == label_of(*e),
{
    match &e.tuple {
        None => Err(Diagnostic { node: e.node, problem: Problem::LabelNotTuple }),
        Some(elems) => {
            if elems.len() != 2 {
                return Err(Diagnostic { node: e.node, problem: Problem::LabelArity });
            }
            let k = &elems[0];
            let key = match &k.lit {
                None => {
                    return Err(Diagnostic { node: k.node, problem: Problem::NotLiteral });
                },
                Some(l) => parse_str_lit(l, k.node)?,
            };
            let v = &elems[1];
            let value = match &v.lit {
                Some(Lit::Str(s)) => LabelValue::Text(s.clone()),
                _ => LabelValue::Expr(v.tokens.clone()),
            };
            Ok(LabelPair { key, value })
        },
    }
}

/// Reads `labels = [("key", value), ...]`: keys must be string literals,
/// values may be any expression.
pub fn parse_labels_expr(value: &Value) -> (r: Result<Vec<LabelPair>, Diagnostic>)
    ensures
        vec_result(r) == labels_of(*value),
{
    match &value.kind {
        ValueKind::Array(elems) => {
            let ghost f = |e: ArrayElem| label_of(e);
            let mut labels: Vec<LabelPair> = Vec::new();
            let mut i: usize = 0;
            while i < elems.len()
                invariant
                    i <= elems.len(),
                    f == (|e: ArrayElem| label_of(e)),
                    value.kind == ValueKind::Array(*elems),
                    map_until_err(elems@.take(i as int), f) == Ok::<Seq<LabelPair>, Diagnostic>(labels@),
                decreases elems.len() - i,
            {
                proof {
                    lemma_map_step(elems@, f, i as int);
                }
                let l = parse_label(&elems[i]);
                match l {
                    Err(err) => {
                        proof {
                            lemma_map_step(elems@, f, i as int);
                            lemma_map_err_stays(elems@, f, i + 1);
                            assert(f =~= (|e: ArrayElem| label_of(e)));
                        }
                        return Err(err);
                    },
                    Ok(l) => {
                        labels.push(l);
                    },
                }
                i = i + 1;
            }
            proof {
                assert(elems@.take(elems.len() as int) =~= elems@);
                assert(f =~= (|e: ArrayElem| label_of(e)));
            }
            Ok(labels)
        },
        _ => Err(Diagnostic { node: value.node, problem: Problem::LabelsNotArray }),
    }
}

} // verus!
