//! Where each part of the expansion comes from: every registration and
//! description is traced back to the field and the attribute entries that
//! wrote it, stated directly over the input.

use vstd::prelude::*;
use crate::attrs::{doc_lines, docs_text, is_named, join_spaced, labels_of, named_positions, single_attr};
use crate::derived::{descriptions_of, metric_plans, registrations_of};
use crate::expand::{
    expansion_of, field_entries, field_entry, field_metric, metric_fields, metrics_attr, no_field_entries,
    no_struct_entries, plan_field, separator_text, struct_entries, struct_entry, ExpansionView, FieldEntries,
    FieldPlanView, MetricFieldView, MetricPlanView, MetricsScope, StructEntries,
};
use crate::metric::metric_name;
use crate::laws::lemma_metric_plans_members;
use crate::metric::MetricKind;
use crate::model::{
    ident_is, AttrName, Attribute, DeriveInput, Diagnostic, Field, LabelPair, Lit, Meta, NameValue,
    Value, ValueKind,
};
use crate::seqs::{fold_until_err, lemma_map_ok};
use crate::text::trimmed;

verus! {

/// The values of the `#[path = "text"]` attributes (doc comments) among
/// `attrs`, each trimmed, in order.
pub open spec fn trimmed_doc_values(attrs: Seq<Attribute>) -> Seq<Seq<char>> {
    attrs.filter(|a: Attribute| a.str_value is Some).map_values(|a: Attribute| trimmed(a.str_value->0@))
}

/// Doc comments are kept line by line: every `#[path = "text"]` attribute
/// gives one line, its value trimmed, in order, and the description they make
/// is those lines joined by single spaces (none when there is no such line).
pub proof fn doc_lines_keep_every_doc_value(attrs: Seq<Attribute>)
    ensures
        doc_lines(attrs) == trimmed_doc_values(attrs),
        docs_text(attrs) == if trimmed_doc_values(attrs).len() == 0 {
            None::<Seq<char>>
        } else {
            Some(join_spaced(trimmed_doc_values(attrs)))
        },
    decreases attrs.len(),
{
    reveal(Seq::filter);
    if attrs.len() > 0 {
        let d = attrs.drop_last();
        doc_lines_keep_every_doc_value(d);
        let p = |a: Attribute| a.str_value is Some;
        let g = |a: Attribute| trimmed(a.str_value->0@);
        assert(attrs.filter(p) == if p(attrs.last()) {
            d.filter(p).push(attrs.last())
        } else {
            d.filter(p)
        });
        if p(attrs.last()) {
            assert(d.filter(p).push(attrs.last()).map_values(g) =~= d.filter(p).map_values(g).push(
                g(attrs.last()),
            ));
        }
    }
}

/// Whether a `#[metric(..)]` entry is `key = ..`.
pub open spec fn is_entry(m: Meta, key: Seq<char>) -> bool {
    match m {
        Meta::NameValue(kv) => ident_is(kv.ident, key),
        _ => false,
    }
}

/// Whether a `#[metric(..)]` entry is the bare `skip`.
pub open spec fn is_skip(m: Meta) -> bool {
    match m {
        Meta::Path { node, ident } => ident_is(ident, "skip"@),
        _ => false,
    }
}

/// The value of a `key = value` entry.
pub open spec fn entry_value(m: Meta) -> Value {
    match m {
        Meta::NameValue(kv) => kv.value,
        _ => Value { node: 0, kind: ValueKind::Other },
    }
}

proof fn lemma_field_entry_values(ms: Seq<Meta>)
    requires
        fold_until_err(ms, no_field_entries(), |st: FieldEntries, m: Meta| field_entry(st, m)) is Ok,
    ensures
        ({
            let st = fold_until_err(ms, no_field_entries(), |st: FieldEntries, m: Meta| field_entry(st, m))->Ok_0;
            &&& forall|k: int|
                0 <= k < ms.len() && is_entry(#[trigger] ms[k], "labels"@) ==> st.labels == Some(
                    labels_of(entry_value(ms[k]))->Ok_0,
                )
            &&& (forall|k: int| 0 <= k < ms.len() ==> !is_entry(#[trigger] ms[k], "labels"@)) ==> st.labels is None
            &&& forall|k: int|
                0 <= k < ms.len() && is_entry(#[trigger] ms[k], "describe"@) ==> st.describe is Some
                    && entry_value(ms[k]).kind == ValueKind::Lit(Lit::Str(st.describe->0))
            &&& (forall|k: int| 0 <= k < ms.len() ==> !is_entry(#[trigger] ms[k], "describe"@))
                ==> st.describe is None
            &&& forall|k: int|
                0 <= k < ms.len() && is_entry(#[trigger] ms[k], "rename"@) ==> st.rename is Some
                    && entry_value(ms[k]).kind == ValueKind::Lit(Lit::Str(st.rename->0))
            &&& (forall|k: int| 0 <= k < ms.len() ==> !is_entry(#[trigger] ms[k], "rename"@))
                ==> st.rename is None
            &&& st.skip <==> exists|k: int| 0 <= k < ms.len() && is_skip(#[trigger] ms[k])
        }),
    decreases ms.len(),
{
    reveal_strlit("labels");
    reveal_strlit("describe");
    reveal_strlit("rename");
    reveal_strlit("skip");
    assert("labels"@.len() == 6 && "describe"@.len() == 8 && "rename"@.len() == 6 && "skip"@.len() == 4);
    assert("labels"@[0] == 'l' && "rename"@[0] == 'r');
    let f = |st: FieldEntries, m: Meta| field_entry(st, m);
    assert(f =~= (|st: FieldEntries, m: Meta| field_entry(st, m)));
    if ms.len() > 0 {
        let d = ms.drop_last();
        assert(fold_until_err(ms, no_field_entries(), f) == match fold_until_err(d, no_field_entries(), f) {
            Err(e) => Err(e),
            Ok(st) => f(st, ms.last()),
        });
        assert(fold_until_err(d, no_field_entries(), f) is Ok);
        lemma_field_entry_values(d);
        let sd = fold_until_err(d, no_field_entries(), f)->Ok_0;
        let last = ms.last();
        let st = fold_until_err(ms, no_field_entries(), f)->Ok_0;
        assert(field_entry(sd, last) == Ok::<FieldEntries, crate::model::Diagnostic>(st));
        assert forall|k: int| 0 <= k < d.len() implies #[trigger] ms[k] == d[k] by {}
        if is_entry(last, "labels"@) {
            assert(sd.labels is None);
            assert forall|k: int| 0 <= k < d.len() implies !is_entry(#[trigger] d[k], "labels"@) by {}
        } else {
            assert(st.labels == sd.labels);
        }
        if is_entry(last, "describe"@) {
            assert(sd.describe is None);
            assert forall|k: int| 0 <= k < d.len() implies !is_entry(#[trigger] d[k], "describe"@) by {}
        } else {
            assert(st.describe == sd.describe);
        }
        if is_entry(last, "rename"@) {
            assert(sd.rename is None);
            assert forall|k: int| 0 <= k < d.len() implies !is_entry(#[trigger] d[k], "rename"@) by {}
        } else {
            assert(st.rename == sd.rename);
        }
        if is_skip(last) {
            assert(is_skip(ms[ms.len() - 1]));
        } else {
            assert(st.skip == sd.skip);
            if sd.skip {
                let k = choose|k: int| 0 <= k < d.len() && is_skip(d[k]);
                assert(is_skip(ms[k]));
            }
            if st.skip {
                let k = choose|k: int| 0 <= k < ms.len() && is_skip(ms[k]);
                assert(k < d.len());
                assert(is_skip(d[k]));
            }
        }
    } else {
        assert(fold_until_err(ms, no_field_entries(), f) == Ok::<FieldEntries, crate::model::Diagnostic>(
            no_field_entries(),
        ));
    }
}

proof fn lemma_struct_entry_labels(kvs: Seq<NameValue>)
    requires
        struct_entries(kvs) is Ok,
    ensures
        ({
            let st = struct_entries(kvs)->Ok_0;
            &&& forall|k: int|
                0 <= k < kvs.len() && ident_is((#[trigger] kvs[k]).ident, "labels"@) ==> st.labels == Some(
                    labels_of(kvs[k].value)->Ok_0,
                )
            &&& (forall|k: int| 0 <= k < kvs.len() ==> !ident_is((#[trigger] kvs[k]).ident, "labels"@))
                ==> st.labels is None
            &&& forall|k: int|
                0 <= k < kvs.len() && ident_is((#[trigger] kvs[k]).ident, "scope"@) ==> st.scope is Some
                    && kvs[k].value.kind == ValueKind::Lit(Lit::Str(st.scope->0))
            &&& (forall|k: int| 0 <= k < kvs.len() ==> !ident_is((#[trigger] kvs[k]).ident, "scope"@))
                ==> st.scope is None
            &&& forall|k: int|
                0 <= k < kvs.len() && ident_is((#[trigger] kvs[k]).ident, "separator"@) ==> st.separator is Some
                    && kvs[k].value.kind == ValueKind::Lit(Lit::Str(st.separator->0))
            &&& (forall|k: int| 0 <= k < kvs.len() ==> !ident_is((#[trigger] kvs[k]).ident, "separator"@))
                ==> st.separator is None
        }),
    decreases kvs.len(),
{
    reveal_strlit("labels");
    reveal_strlit("scope");
    reveal_strlit("separator");
    reveal_strlit("dynamic");
    assert("labels"@.len() == 6 && "scope"@.len() == 5 && "separator"@.len() == 9 && "dynamic"@.len() == 7);
    let f = |st: StructEntries, kv: NameValue| struct_entry(st, kv);
    assert(f =~= (|st: StructEntries, kv: NameValue| struct_entry(st, kv)));
    if kvs.len() > 0 {
        let d = kvs.drop_last();
        assert(struct_entries(kvs) == match fold_until_err(d, no_struct_entries(), f) {
            Err(e) => Err(e),
            Ok(st) => f(st, kvs.last()),
        });
        assert(struct_entries(d) is Ok);
        lemma_struct_entry_labels(d);
        let sd = struct_entries(d)->Ok_0;
        let last = kvs.last();
        let st = struct_entries(kvs)->Ok_0;
        assert(struct_entry(sd, last) == Ok::<StructEntries, crate::model::Diagnostic>(st));
        assert forall|k: int| 0 <= k < d.len() implies #[trigger] kvs[k] == d[k] by {}
        if ident_is(last.ident, "labels"@) {
            assert(sd.labels is None);
            assert forall|k: int| 0 <= k < d.len() implies !ident_is((#[trigger] d[k]).ident, "labels"@) by {}
        } else {
            assert(st.labels == sd.labels);
        }
        if ident_is(last.ident, "scope"@) {
            assert(sd.scope is None);
            assert forall|k: int| 0 <= k < d.len() implies !ident_is((#[trigger] d[k]).ident, "scope"@) by {}
        } else {
            assert(st.scope == sd.scope);
        }
        if ident_is(last.ident, "separator"@) {
            assert(sd.separator is None);
            assert forall|k: int| 0 <= k < d.len() implies !ident_is((#[trigger] d[k]).ident, "separator"@) by {}
        } else {
            assert(st.separator == sd.separator);
        }
    }
}

proof fn lemma_named_positions_complete(attrs: Seq<Attribute>, name: AttrName)
    ensures
        forall|a: int|
            0 <= a < attrs.len() && is_named(#[trigger] attrs[a], name) ==> named_positions(attrs, name).contains(a),
    decreases attrs.len(),
{
    if attrs.len() > 0 {
        let d = attrs.drop_last();
        lemma_named_positions_complete(d, name);
        assert forall|a: int| 0 <= a < attrs.len() && is_named(#[trigger] attrs[a], name) implies named_positions(
            attrs,
            name,
        ).contains(a) by {
            let p = named_positions(d, name);
            if a < d.len() {
                assert(d[a] == attrs[a]);
                let j = choose|j: int| 0 <= j < p.len() && p[j] == a;
                if is_named(attrs.last(), name) {
                    assert(p.push(attrs.len() - 1)[j] == a);
                }
            } else {
                assert(p.push(attrs.len() - 1)[p.len() as int] == a);
            }
        }
    }
}

/// When the attribute `name` is read without refusal, the position it is read
/// at is the only attribute of that name.
proof fn lemma_the_named_attribute(attrs: Seq<Attribute>, name: AttrName)
    requires
        single_attr(attrs, name) is Ok,
    ensures
        single_attr(attrs, name) == Ok::<Option<int>, Diagnostic>(None) ==> forall|a: int|
            0 <= a < attrs.len() ==> !is_named(#[trigger] attrs[a], name),
        single_attr(attrs, name) matches Ok(Some(i)) ==> 0 <= i < attrs.len() && is_named(attrs[i], name)
            && forall|a: int| 0 <= a < attrs.len() && is_named(#[trigger] attrs[a], name) ==> a == i,
{
    lemma_named_positions_complete(attrs, name);
    crate::attrs::lemma_named_positions_bounds(attrs, name);
    let p = named_positions(attrs, name);
    if p.len() == 1 {
        assert(0 <= p[0] < attrs.len() && is_named(attrs[p[0]], name));
    }
    assert forall|a: int| 0 <= a < attrs.len() && is_named(#[trigger] attrs[a], name) implies p.len() > 0
        && a == p[0] by {
        assert(p.contains(a));
    }
}

/// The entries of a field's `#[metric(..)]` attribute; none when the field
/// has no such attribute.
pub open spec fn metric_entries_of(f: Field) -> Seq<Meta> {
    if exists|a: int| 0 <= a < f.attrs@.len() && is_named(f.attrs@[a], AttrName::Metric) {
        let a = choose|a: int| 0 <= a < f.attrs@.len() && is_named(f.attrs@[a], AttrName::Metric);
        match f.attrs@[a].metas {
            Ok(ms) => ms@,
            Err(_) => Seq::empty(),
        }
    } else {
        Seq::empty()
    }
}

/// The labels written by a `labels = [..]` entry among `ms`; none without one.
pub open spec fn written_labels(ms: Seq<Meta>) -> Seq<LabelPair> {
    if exists|k: int| 0 <= k < ms.len() && is_entry(ms[k], "labels"@) {
        let k = choose|k: int| 0 <= k < ms.len() && is_entry(ms[k], "labels"@);
        labels_of(entry_value(ms[k]))->Ok_0
    } else {
        Seq::empty()
    }
}

/// The description written for a field: the string of its `describe = ".."`
/// entry when it has one, otherwise its trimmed doc lines joined by spaces.
pub open spec fn written_description(f: Field) -> Seq<char> {
    let ms = metric_entries_of(f);
    if exists|k: int| 0 <= k < ms.len() && is_entry(ms[k], "describe"@) {
        let k = choose|k: int| 0 <= k < ms.len() && is_entry(ms[k], "describe"@);
        match entry_value(ms[k]).kind {
            ValueKind::Lit(Lit::Str(d)) => d@,
            _ => Seq::empty(),
        }
    } else {
        join_spaced(trimmed_doc_values(f.attrs@))
    }
}

/// The entries of the struct's `#[metrics(..)]` attribute.
pub open spec fn struct_attr_entries(input: DeriveInput) -> Seq<NameValue> {
    if exists|a: int| 0 <= a < input.attrs@.len() && is_named(input.attrs@[a], AttrName::Metrics) {
        let a = choose|a: int| 0 <= a < input.attrs@.len() && is_named(input.attrs@[a], AttrName::Metrics);
        match input.attrs@[a].name_values {
            Ok(kvs) => kvs@,
            Err(_) => Seq::empty(),
        }
    } else {
        Seq::empty()
    }
}

/// The labels written by a `labels = [..]` entry among `kvs`; none without one.
pub open spec fn written_struct_labels(kvs: Seq<NameValue>) -> Seq<LabelPair> {
    if exists|k: int| 0 <= k < kvs.len() && ident_is(kvs[k].ident, "labels"@) {
        let k = choose|k: int| 0 <= k < kvs.len() && ident_is(kvs[k].ident, "labels"@);
        labels_of(kvs[k].value)->Ok_0
    } else {
        Seq::empty()
    }
}

/// The type name that selects a metric kind.
pub open spec fn kind_name(k: MetricKind) -> Seq<char> {
    match k {
        MetricKind::Counter => "Counter"@,
        MetricKind::Histogram => "Histogram"@,
        MetricKind::Gauge => "Gauge"@,
    }
}

/// Whether the field carries `#[metric(skip)]`.
pub open spec fn written_skip(f: Field) -> bool {
    exists|k: int| 0 <= k < metric_entries_of(f).len() && is_skip(#[trigger] metric_entries_of(f)[k])
}

/// The name written for a field: the string of its `rename = ".."` entry when
/// it has one, otherwise its identifier (empty for an unnamed field).
pub open spec fn written_name(f: Field) -> Seq<char> {
    let ms = metric_entries_of(f);
    if exists|k: int| 0 <= k < ms.len() && is_entry(ms[k], "rename"@) {
        let k = choose|k: int| 0 <= k < ms.len() && is_entry(ms[k], "rename"@);
        match entry_value(ms[k]).kind {
            ValueKind::Lit(Lit::Str(r)) => r@,
            _ => Seq::empty(),
        }
    } else {
        match f.ident {
            Some(i) => i@,
            None => Seq::empty(),
        }
    }
}

/// The scope written by the struct's `scope = ".."` entry, if any.
pub open spec fn written_scope(input: DeriveInput) -> Option<Seq<char>> {
    let kvs = struct_attr_entries(input);
    if exists|k: int| 0 <= k < kvs.len() && ident_is(kvs[k].ident, "scope"@) {
        let k = choose|k: int| 0 <= k < kvs.len() && ident_is(kvs[k].ident, "scope"@);
        match kvs[k].value.kind {
            ValueKind::Lit(Lit::Str(sc)) => Some(sc@),
            _ => None,
        }
    } else {
        None
    }
}

/// The separator written by the struct's `separator = ".."` entry, or `.`.
pub open spec fn written_separator(input: DeriveInput) -> Seq<char> {
    let kvs = struct_attr_entries(input);
    if exists|k: int| 0 <= k < kvs.len() && ident_is(kvs[k].ident, "separator"@) {
        let k = choose|k: int| 0 <= k < kvs.len() && ident_is(kvs[k].ident, "separator"@);
        match kvs[k].value.kind {
            ValueKind::Lit(Lit::Str(sep)) => sep@,
            _ => Seq::empty(),
        }
    } else {
        "."@
    }
}

/// How an accepted field is treated follows from what is written on it.
proof fn lemma_field_provenance(f: Field)
    requires
        field_metric(f) is Ok,
    ensures
        field_metric(f) matches Ok(MetricFieldView::Skipped(g)) ==> g == f && written_skip(f),
        field_metric(f) matches Ok(MetricFieldView::Included(m)) ==> {
            &&& m.field == f
            &&& !written_skip(f)
            &&& metric_name(m) == written_name(f)
            &&& m.description == written_description(f)
            &&& m.labels == written_labels(metric_entries_of(f))
        },
{
    let st = field_entries(f)->Ok_0;
    lemma_the_named_attribute(f.attrs@, AttrName::Metric);
    doc_lines_keep_every_doc_value(f.attrs@);
    let ms = metric_entries_of(f);
    match single_attr(f.attrs@, AttrName::Metric) {
        Ok(None) => {
            assert(ms == Seq::<Meta>::empty());
            assert(st == no_field_entries());
        },
        Ok(Some(i)) => {
            let metas = f.attrs@[i].metas->Ok_0;
            assert(ms == metas@);
            lemma_field_entry_values(metas@);
            assert(st == fold_until_err(metas@, no_field_entries(), |st: FieldEntries, m: Meta| field_entry(st, m))->Ok_0);
        },
        Err(_) => {},
    }
    assert(st.skip == written_skip(f));
    if exists|k: int| 0 <= k < ms.len() && is_entry(ms[k], "labels"@) {
        let k = choose|k: int| 0 <= k < ms.len() && is_entry(ms[k], "labels"@);
        assert(st.labels == Some(labels_of(entry_value(ms[k]))->Ok_0));
    } else {
        assert(st.labels is None);
    }
    if exists|k: int| 0 <= k < ms.len() && is_entry(ms[k], "describe"@) {
        let k = choose|k: int| 0 <= k < ms.len() && is_entry(ms[k], "describe"@);
        assert(entry_value(ms[k]).kind == ValueKind::Lit(Lit::Str(st.describe->0)));
    } else {
        assert(st.describe is None);
    }
    if exists|k: int| 0 <= k < ms.len() && is_entry(ms[k], "rename"@) {
        let k = choose|k: int| 0 <= k < ms.len() && is_entry(ms[k], "rename"@);
        assert(entry_value(ms[k]).kind == ValueKind::Lit(Lit::Str(st.rename->0)));
    } else {
        assert(st.rename is None);
    }
}

/// The struct-level settings of an accepted input follow from its
/// `#[metrics(..)]` entries.
proof fn lemma_struct_provenance(input: DeriveInput)
    requires
        metrics_attr(input) is Ok,
    ensures
        ({
            let a = metrics_attr(input)->Ok_0;
            &&& a.labels == written_struct_labels(struct_attr_entries(input))
            &&& separator_text(a.separator) == written_separator(input)
            &&& match a.scope {
                MetricsScope::Static(sc) => written_scope(input) == Some(sc@),
                MetricsScope::Dynamic => written_scope(input) is None,
            }
        }),
{
    let ai = crate::attrs::required_attr(input.attrs@, input.node, AttrName::Metrics)->Ok_0;
    lemma_the_named_attribute(input.attrs@, AttrName::Metrics);
    let kvs = input.attrs@[ai].name_values->Ok_0@;
    assert(struct_attr_entries(input) == kvs);
    lemma_struct_entry_labels(kvs);
    let st = struct_entries(kvs)->Ok_0;
    if exists|k: int| 0 <= k < kvs.len() && ident_is(kvs[k].ident, "labels"@) {
        let k = choose|k: int| 0 <= k < kvs.len() && ident_is(kvs[k].ident, "labels"@);
        assert(st.labels == Some(labels_of(kvs[k].value)->Ok_0));
    }
    if exists|k: int| 0 <= k < kvs.len() && ident_is(kvs[k].ident, "scope"@) {
        let k = choose|k: int| 0 <= k < kvs.len() && ident_is(kvs[k].ident, "scope"@);
        assert(kvs[k].value.kind == ValueKind::Lit(Lit::Str(st.scope->0)));
    } else {
        assert(st.scope is None);
    }
    if exists|k: int| 0 <= k < kvs.len() && ident_is(kvs[k].ident, "separator"@) {
        let k = choose|k: int| 0 <= k < kvs.len() && ident_is(kvs[k].ident, "separator"@);
        assert(kvs[k].value.kind == ValueKind::Lit(Lit::Str(st.separator->0)));
    } else {
        assert(st.separator is None);
    }
}

/// Each field's plan follows from what is written on the field and on the
/// struct: a field with `#[metric(skip)]` is left to its default; every other
/// field is a metric for that field, named by its `rename` string or its
/// identifier, of the kind its type's last path segment names, described by
/// its `describe` string or its doc lines, with the labels of its own
/// `labels = [..]` entry, and, under a static scope, keyed by the `scope`
/// string, the separator (`.` unless written) and its name. The struct-level
/// labels are those of the struct's `labels = [..]` entry.
pub proof fn plans_come_from_their_fields(input: DeriveInput)
    requires
        expansion_of(input) is Ok,
    ensures
        ({
            let e = expansion_of(input)->Ok_0;
            &&& input.data is Struct
            &&& e.fields.len() == input.data->Struct_0@.len()
            &&& e.global_labels == written_struct_labels(struct_attr_entries(input))
            &&& e.separator == written_separator(input)
            &&& (e.scope is Dynamic <==> written_scope(input) is None)
            &&& forall|i: int|
                0 <= i < e.fields.len() ==> {
                    let f = input.data->Struct_0@[i];
                    match #[trigger] e.fields[i] {
                        FieldPlanView::Skipped(id) => written_skip(f) && id == f.ident,
                        FieldPlanView::Metric(p) => {
                            &&& !written_skip(f)
                            &&& p.field == f.ident
                            &&& p.name == written_name(f)
                            &&& f.ty.last_segment is Some
                            &&& f.ty.last_segment->0@ == kind_name(p.kind)
                            &&& p.description == written_description(f)
                            &&& p.labels == written_labels(metric_entries_of(f))
                            &&& p.static_name == match written_scope(input) {
                                Some(sc) => Some(sc + written_separator(input) + written_name(f)),
                                None => None,
                            }
                        },
                    }
                }
        }),
{
    let e = expansion_of(input)->Ok_0;
    let attr = metrics_attr(input)->Ok_0;
    let mfs = metric_fields(input)->Ok_0;
    let fields = input.data->Struct_0;
    lemma_map_ok(fields@, |f: Field| field_metric(f));
    lemma_map_ok(mfs, |mf: MetricFieldView| plan_field(attr, mf));
    lemma_struct_provenance(input);
    reveal_strlit("Counter");
    reveal_strlit("Histogram");
    reveal_strlit("Gauge");
    assert forall|i: int| 0 <= i < e.fields.len() implies {
        let f = fields@[i];
        match #[trigger] e.fields[i] {
            FieldPlanView::Skipped(id) => written_skip(f) && id == f.ident,
            FieldPlanView::Metric(p) => {
                &&& !written_skip(f)
                &&& p.field == f.ident
                &&& p.name == written_name(f)
                &&& f.ty.last_segment is Some
                &&& f.ty.last_segment->0@ == kind_name(p.kind)
                &&& p.description == written_description(f)
                &&& p.labels == written_labels(metric_entries_of(f))
                &&& p.static_name == match written_scope(input) {
                    Some(sc) => Some(sc + written_separator(input) + written_name(f)),
                    None => None,
                }
            },
        }
    } by {
        assert(plan_field(attr, mfs[i]) == Ok::<FieldPlanView, Diagnostic>(e.fields[i]));
        assert(field_metric(fields@[i]) == Ok::<MetricFieldView, Diagnostic>(mfs[i]));
        lemma_field_provenance(fields@[i]);
    }
}

/// The metric plans are the plans of the metric fields, in field order: the
/// skipped fields are left out and nothing else is.
pub proof fn metric_plans_are_the_metric_fields(fields: Seq<FieldPlanView>)
    ensures
        metric_plans(fields) == fields.filter(|p: FieldPlanView| p is Metric).map_values(
            |p: FieldPlanView| p->Metric_0,
        ),
    decreases fields.len(),
{
    reveal(Seq::filter);
    if fields.len() > 0 {
        let d = fields.drop_last();
        metric_plans_are_the_metric_fields(d);
        let p = |q: FieldPlanView| q is Metric;
        let g = |q: FieldPlanView| q->Metric_0;
        assert(fields.filter(p) == if p(fields.last()) {
            d.filter(p).push(fields.last())
        } else {
            d.filter(p)
        });
        if p(fields.last()) {
            assert(d.filter(p).push(fields.last()).map_values(g) =~= d.filter(p).map_values(g).push(
                g(fields.last()),
            ));
        }
    }
}

/// The key a metric plan is registered and described under.
pub open spec fn plan_key(p: MetricPlanView, separator: Seq<char>, prefix: Seq<char>) -> Seq<char> {
    match p.static_name {
        Some(n) => n,
        None => prefix + separator + p.name,
    }
}

/// There is one registration and one description per metric plan, in the
/// same order: each under the plan's static name, or else the prefix given at
/// run time, the separator and the metric's name; each with the plan's kind;
/// the registration with the instance labels, the struct-level labels and the
/// plan's labels in that order, the description with the plan's text.
pub proof fn one_registration_and_description_per_plan(e: ExpansionView, prefix: Seq<char>, instance: Seq<LabelPair>)
    ensures
        ({
            let mp = metric_plans(e.fields);
            let regs = registrations_of(e, prefix, instance);
            let descs = descriptions_of(e, prefix);
            &&& regs.len() == mp.len()
            &&& descs.len() == mp.len()
            &&& forall|j: int|
                0 <= j < mp.len() ==> {
                    &&& (#[trigger] regs[j]).field == mp[j].field
                    &&& regs[j].key == plan_key(mp[j], e.separator, prefix)
                    &&& regs[j].kind == mp[j].kind
                    &&& regs[j].labels == instance + e.global_labels + mp[j].labels
                    &&& descs[j].key == plan_key(mp[j], e.separator, prefix)
                    &&& descs[j].kind == mp[j].kind
                    &&& descs[j].description == mp[j].description
                }
        }),
{
}

/// Where every registration and description of an accepted struct comes
/// from. Each one stands for a field of the struct (the one whose plan it is):
/// it is registered for that field, with the kind named by the last segment of
/// the field's type; it is described, with the same kind, by the field's
/// `describe` string, or else by its doc lines trimmed and joined by spaces;
/// and it carries the instance labels, then the labels of the struct's
/// `labels = [..]` entry, then those of the field's `labels = [..]` entry,
/// whatever other entries (`describe`, `rename`, `separator`, ...) are given.
pub proof fn metrics_come_from_their_fields(input: DeriveInput, prefix: Seq<char>, instance: Seq<LabelPair>)
    requires
        expansion_of(input) is Ok,
    ensures
        ({
            let e = expansion_of(input)->Ok_0;
            let regs = registrations_of(e, prefix, instance);
            let descs = descriptions_of(e, prefix);
            &&& e.global_labels == written_struct_labels(struct_attr_entries(input))
            &&& regs.len() == descs.len()
            &&& input.data is Struct
            &&& forall|j: int|
                0 <= j < regs.len() ==> exists|i: int|
                    #![trigger e.fields[i]]
                    0 <= i < input.data->Struct_0@.len() && {
                        let f = input.data->Struct_0@[i];
                        &&& e.fields[i] == FieldPlanView::Metric(metric_plans(e.fields)[j])
                        &&& (#[trigger] regs[j]).field == f.ident
                        &&& f.ty.last_segment is Some
                        &&& f.ty.last_segment->0@ == kind_name(regs[j].kind)
                        &&& descs[j].kind == regs[j].kind
                        &&& descs[j].description == written_description(f)
                        &&& regs[j].labels == instance + written_struct_labels(struct_attr_entries(input))
                            + written_labels(metric_entries_of(f))
                    }
        }),
{
    let e = expansion_of(input)->Ok_0;
    let attr = metrics_attr(input)->Ok_0;
    let mfs = metric_fields(input)->Ok_0;
    let fields = input.data->Struct_0;
    lemma_map_ok(fields@, |f: Field| field_metric(f));
    lemma_map_ok(mfs, |mf: MetricFieldView| plan_field(attr, mf));
    lemma_metric_plans_members(e.fields);
    reveal_strlit("Counter");
    reveal_strlit("Histogram");
    reveal_strlit("Gauge");

    // The struct-level labels.
    let ai = crate::attrs::required_attr(input.attrs@, input.node, AttrName::Metrics)->Ok_0;
    lemma_the_named_attribute(input.attrs@, AttrName::Metrics);
    let kvs = input.attrs@[ai].name_values->Ok_0;
    assert(struct_attr_entries(input) == kvs@);
    lemma_struct_entry_labels(kvs@);
    let kv_all = kvs@;
    if exists|k: int| 0 <= k < kv_all.len() && ident_is(kv_all[k].ident, "labels"@) {
        let k = choose|k: int| 0 <= k < kv_all.len() && ident_is(kv_all[k].ident, "labels"@);
        assert(struct_entries(kv_all)->Ok_0.labels == Some(labels_of(kv_all[k].value)->Ok_0));
    }

    let regs = registrations_of(e, prefix, instance);
    let descs = descriptions_of(e, prefix);
    assert forall|j: int| 0 <= j < regs.len() implies exists|i: int|
        #![trigger e.fields[i]]
        0 <= i < fields@.len() && {
            let f = fields@[i];
            &&& e.fields[i] == FieldPlanView::Metric(metric_plans(e.fields)[j])
            &&& (#[trigger] regs[j]).field == f.ident
            &&& f.ty.last_segment is Some
            &&& f.ty.last_segment->0@ == kind_name(regs[j].kind)
            &&& descs[j].kind == regs[j].kind
            &&& descs[j].description == written_description(f)
            &&& regs[j].labels == instance + written_struct_labels(struct_attr_entries(input)) + written_labels(
                metric_entries_of(f),
            )
        } by {
        let p = metric_plans(e.fields)[j];
        let i = choose|i: int| 0 <= i < e.fields.len() && e.fields[i] == FieldPlanView::Metric(p);
        assert(plan_field(attr, mfs[i]) == Ok::<FieldPlanView, Diagnostic>(e.fields[i]));
        assert(field_metric(fields@[i]) == Ok::<MetricFieldView, Diagnostic>(mfs[i]));
        lemma_field_provenance(fields@[i]);
    }
}

} // verus!
