//! Properties of the derive as a whole, stated over the specifications of its
//! parts.

use vstd::prelude::*;
use crate::attrs::{docs_text, named_positions};
use crate::derived::{descriptions_of, metric_plans, registrations_of};
use crate::expand::{
    expansion_of, field_entries, field_entry, field_metric, metric_fields, metrics_attr, no_field_entries,
    no_struct_entries, plan_field, scope_of, separator_text, struct_entries, struct_entry, ExpansionView,
    FieldEntries, FieldPlanView, MetricFieldView, MetricsScope, StructEntries,
};
use crate::model::{ident_is, AttrName, Data, DeriveInput, Diagnostic, Field, LabelPair, Meta, NameValue};
use crate::seqs::{fold_until_err, lemma_map_ok};

verus! {

/// The number of entries among `kvs` whose key is `key`.
pub open spec fn key_count(kvs: Seq<NameValue>, key: Seq<char>) -> nat
    decreases kvs.len(),
{
    if kvs.len() == 0 {
        0
    } else {
        key_count(kvs.drop_last(), key) + if ident_is(kvs.last().ident, key) {
            1nat
        } else {
            0nat
        }
    }
}

proof fn lemma_struct_keys(kvs: Seq<NameValue>)
    requires
        struct_entries(kvs) is Ok,
    ensures
        ({
            let st = struct_entries(kvs)->Ok_0;
            &&& key_count(kvs, "labels"@) <= 1 && (st.labels is Some <==> key_count(kvs, "labels"@) == 1)
            &&& key_count(kvs, "scope"@) <= 1 && (st.scope is Some <==> key_count(kvs, "scope"@) == 1)
            &&& key_count(kvs, "separator"@) <= 1 && (st.separator is Some <==> key_count(kvs, "separator"@) == 1)
            &&& key_count(kvs, "dynamic"@) <= 1 && (st.dynamic is Some <==> key_count(kvs, "dynamic"@) == 1)
        }),
    decreases kvs.len(),
{
    reveal_strlit("labels");
    reveal_strlit("scope");
    reveal_strlit("separator");
    reveal_strlit("dynamic");
    assert("labels"@.len() == 6 && "scope"@.len() == 5 && "separator"@.len() == 9 && "dynamic"@.len() == 7);
    if kvs.len() > 0 {
        let d = kvs.drop_last();
        let f = |st: StructEntries, kv: NameValue| struct_entry(st, kv);
        assert(f =~= (|st: StructEntries, kv: NameValue| struct_entry(st, kv)));
        assert(struct_entries(kvs) == match fold_until_err(d, no_struct_entries(), f) {
            Err(e) => Err(e),
            Ok(st) => f(st, kvs.last()),
        });
        assert(struct_entries(d) is Ok);
        lemma_struct_keys(d);
        let st = struct_entries(d)->Ok_0;
        let kv = kvs.last();
        assert(struct_entries(kvs) == struct_entry(st, kv));
        assert(kvs.drop_last() == d);
    }
}

/// Each key of `#[metrics(..)]` (`scope`, `separator`, `dynamic`, `labels`)
/// is accepted at most once: entries that the derive reads without refusal
/// name each of these keys at most once.
pub proof fn struct_keys_at_most_once(kvs: Seq<NameValue>)
    requires
        struct_entries(kvs) is Ok,
    ensures
        key_count(kvs, "scope"@) <= 1,
        key_count(kvs, "separator"@) <= 1,
        key_count(kvs, "dynamic"@) <= 1,
        key_count(kvs, "labels"@) <= 1,
{
    lemma_struct_keys(kvs);
}

/// The number of `#[metric(..)]` entries among `ms` of the form `key = ..`.
pub open spec fn meta_key_count(ms: Seq<Meta>, key: Seq<char>) -> nat
    decreases ms.len(),
{
    if ms.len() == 0 {
        0
    } else {
        meta_key_count(ms.drop_last(), key) + match ms.last() {
            Meta::NameValue(kv) => if ident_is(kv.ident, key) {
                1nat
            } else {
                0nat
            },
            _ => 0nat,
        }
    }
}

proof fn lemma_field_keys(ms: Seq<Meta>)
    requires
        fold_until_err(ms, no_field_entries(), |st: FieldEntries, m: Meta| field_entry(st, m)) is Ok,
    ensures
        ({
            let st = fold_until_err(ms, no_field_entries(), |st: FieldEntries, m: Meta| field_entry(st, m))->Ok_0;
            &&& meta_key_count(ms, "labels"@) <= 1 && (st.labels is Some <==> meta_key_count(ms, "labels"@) == 1)
            &&& meta_key_count(ms, "describe"@) <= 1 && (st.describe is Some <==> meta_key_count(ms, "describe"@) == 1)
            &&& meta_key_count(ms, "rename"@) <= 1 && (st.rename is Some <==> meta_key_count(ms, "rename"@) == 1)
        }),
    decreases ms.len(),
{
    reveal_strlit("labels");
    reveal_strlit("describe");
    reveal_strlit("rename");
    assert("labels"@.len() == 6 && "describe"@.len() == 8 && "rename"@.len() == 6);
    assert("labels"@[0] == 'l' && "rename"@[0] == 'r');
    if ms.len() > 0 {
        let d = ms.drop_last();
        let f = |st: FieldEntries, m: Meta| field_entry(st, m);
        assert(f =~= (|st: FieldEntries, m: Meta| field_entry(st, m)));
        assert(fold_until_err(ms, no_field_entries(), f) == match fold_until_err(d, no_field_entries(), f) {
            Err(e) => Err(e),
            Ok(st) => f(st, ms.last()),
        });
        assert(fold_until_err(d, no_field_entries(), f) is Ok);
        lemma_field_keys(d);
        let st = fold_until_err(d, no_field_entries(), f)->Ok_0;
        assert(fold_until_err(ms, no_field_entries(), f) == field_entry(st, ms.last()));
    }
}

/// Each key of `#[metric(..)]` (`describe`, `rename`, `labels`) is accepted
/// at most once: entries that the derive reads without refusal name each of
/// these keys at most once.
pub proof fn field_keys_at_most_once(ms: Seq<Meta>)
    requires
        fold_until_err(ms, no_field_entries(), |st: FieldEntries, m: Meta| field_entry(st, m)) is Ok,
    ensures
        meta_key_count(ms, "describe"@) <= 1,
        meta_key_count(ms, "rename"@) <= 1,
        meta_key_count(ms, "labels"@) <= 1,
{
    lemma_field_keys(ms);
}

/// A struct that the derive accepts carries exactly one `#[metrics(..)]`
/// attribute, and each of its fields at most one `#[metric(..)]` attribute.
pub proof fn attributes_not_repeated(input: DeriveInput)
    requires
        expansion_of(input) is Ok,
    ensures
        named_positions(input.attrs@, AttrName::Metrics).len() == 1,
        input.data matches Data::Struct(fields) && forall|i: int|
            0 <= i < fields@.len() ==> named_positions(#[trigger] fields@[i].attrs@, AttrName::Metric).len() <= 1,
{
    let fields = input.data->Struct_0;
    assert(metrics_attr(input) is Ok);
    let mfs = metric_fields(input)->Ok_0;
    lemma_map_ok(fields@, |f: Field| field_metric(f));
    assert forall|i: int| 0 <= i < fields@.len() implies named_positions(
        #[trigger] fields@[i].attrs@,
        AttrName::Metric,
    ).len() <= 1 by {
        assert(field_metric(fields@[i]) == Ok::<MetricFieldView, Diagnostic>(mfs[i]));
    }
}

/// The scope is fixed by exactly one of `scope = ".."` and `dynamic = true`:
/// a `scope` without `dynamic = true` gives that static scope, `dynamic =
/// true` without `scope` gives a dynamic scope, and every other combination is
/// refused.
pub proof fn scope_or_dynamic_exclusively(scope: Option<String>, dynamic: Option<bool>, node: usize)
    ensures
        scope_of(scope, dynamic, node) is Ok <==> (scope is Some) != (dynamic == Some(true)),
        scope is Some && dynamic != Some(true) ==> scope_of(scope, dynamic, node) == Ok::<
            MetricsScope,
            Diagnostic,
        >(MetricsScope::Static(scope.unwrap())),
        scope is None && dynamic == Some(true) ==> scope_of(scope, dynamic, node) == Ok::<
            MetricsScope,
            Diagnostic,
        >(MetricsScope::Dynamic),
{
}

/// A `describe = ".."` entry is preferred over the field's doc comments, which
/// are used (trimmed, joined by single spaces) only when it is absent.
pub proof fn describe_preferred_over_docs(field: Field)
    requires
        field_entries(field) is Ok,
        !field_entries(field)->Ok_0.skip,
    ensures
        field_entries(field)->Ok_0.describe matches Some(d) ==> field_metric(field) matches Ok(
            MetricFieldView::Included(m),
        ) && m.description == d@,
        field_entries(field)->Ok_0.describe is None ==> match docs_text(field.attrs@) {
            Some(t) => field_metric(field) matches Ok(MetricFieldView::Included(m)) && m.description == t,
            None => field_metric(field) is Err,
        },
{
}

/// The expansion has one plan per field of the struct, in order: a skipped
/// field (`#[metric(skip)]`) is left to its default, every other field becomes
/// a metric under its own identifier.
pub proof fn one_plan_per_field(input: DeriveInput)
    requires
        expansion_of(input) is Ok,
    ensures
        input.data matches Data::Struct(fields) && {
            let e = expansion_of(input)->Ok_0;
            &&& e.fields.len() == fields@.len()
            &&& forall|i: int|
                0 <= i < fields@.len() ==> match #[trigger] e.fields[i] {
                    FieldPlanView::Skipped(id) => field_entries(fields@[i])->Ok_0.skip && id == fields@[i].ident,
                    FieldPlanView::Metric(p) => !field_entries(fields@[i])->Ok_0.skip && p.field
                        == fields@[i].ident,
                }
        },
{
    let fields = input.data->Struct_0;
    let attr = metrics_attr(input)->Ok_0;
    let mfs = metric_fields(input)->Ok_0;
    lemma_map_ok(fields@, |f: Field| field_metric(f));
    lemma_map_ok(mfs, |mf: MetricFieldView| plan_field(attr, mf));
    let e = expansion_of(input)->Ok_0;
    assert forall|i: int| 0 <= i < fields@.len() implies match #[trigger] e.fields[i] {
        FieldPlanView::Skipped(id) => field_entries(fields@[i])->Ok_0.skip && id == fields@[i].ident,
        FieldPlanView::Metric(p) => !field_entries(fields@[i])->Ok_0.skip && p.field == fields@[i].ident,
    } by {
        assert(field_metric(fields@[i]) == Ok::<MetricFieldView, Diagnostic>(mfs[i]));
        assert(plan_field(attr, mfs[i]) == Ok::<FieldPlanView, Diagnostic>(e.fields[i]));
    }
}

/// Every plan in `metric_plans(fields)` is a metric plan of `fields`.
pub(crate) proof fn lemma_metric_plans_members(fields: Seq<FieldPlanView>)
    ensures
        forall|j: int|
            0 <= j < metric_plans(fields).len() ==> exists|i: int|
                0 <= i < fields.len() && fields[i] == FieldPlanView::Metric(#[trigger] metric_plans(fields)[j]),
    decreases fields.len(),
{
    if fields.len() > 0 {
        let d = fields.drop_last();
        lemma_metric_plans_members(d);
        assert forall|j: int| 0 <= j < metric_plans(fields).len() implies exists|i: int|
            0 <= i < fields.len() && fields[i] == FieldPlanView::Metric(#[trigger] metric_plans(fields)[j]) by {
            if j < metric_plans(d).len() {
                let i = choose|i: int| 0 <= i < d.len() && d[i] == FieldPlanView::Metric(metric_plans(d)[j]);
                assert(fields[i] == d[i]);
            } else {
                assert(fields[fields.len() - 1] == FieldPlanView::Metric(metric_plans(fields)[j]));
            }
        }
    }
}

/// The metric plans of an accepted input carry the names and keys the
/// derive gives them: the name is the `rename` value or the field identifier,
/// and under a static scope the key is `scope`, separator, name.
proof fn lemma_plans_of_input(input: DeriveInput)
    requires
        expansion_of(input) is Ok,
    ensures
        ({
            let e = expansion_of(input)->Ok_0;
            forall|j: int|
                0 <= j < metric_plans(e.fields).len() ==> match e.scope {
                    MetricsScope::Static(s) => (#[trigger] metric_plans(e.fields)[j]).static_name == Some(
                        s@ + e.separator + metric_plans(e.fields)[j].name,
                    ),
                    MetricsScope::Dynamic => (#[trigger] metric_plans(e.fields)[j]).static_name is None,
                }
        }),
{
    let attr = metrics_attr(input)->Ok_0;
    let mfs = metric_fields(input)->Ok_0;
    lemma_map_ok(mfs, |mf: MetricFieldView| plan_field(attr, mf));
    let e = expansion_of(input)->Ok_0;
    lemma_metric_plans_members(e.fields);
    assert forall|j: int| 0 <= j < metric_plans(e.fields).len() implies match e.scope {
        MetricsScope::Static(s) => (#[trigger] metric_plans(e.fields)[j]).static_name == Some(
            s@ + e.separator + metric_plans(e.fields)[j].name,
        ),
        MetricsScope::Dynamic => (#[trigger] metric_plans(e.fields)[j]).static_name is None,
    } by {
        let i = choose|i: int| 0 <= i < e.fields.len() && e.fields[i] == FieldPlanView::Metric(metric_plans(e.fields)[j]);
        assert(plan_field(attr, mfs[i]) == Ok::<FieldPlanView, Diagnostic>(e.fields[i]));
    }
}

/// Under a static scope every metric is registered under `scope`, the
/// separator (`.` unless one is given), and its name, whatever prefix the
/// constructor is given.
pub proof fn static_metric_keys(input: DeriveInput, prefix: Seq<char>, instance: Seq<LabelPair>)
    requires
        expansion_of(input) matches Ok(e) && e.scope is Static,
    ensures
        ({
            let e = expansion_of(input)->Ok_0;
            let regs = registrations_of(e, prefix, instance);
            &&& e.separator == separator_text(metrics_attr(input)->Ok_0.separator)
            &&& forall|j: int|
                0 <= j < regs.len() ==> (#[trigger] regs[j]).key == e.scope->Static_0@ + e.separator
                    + metric_plans(e.fields)[j].name
        }),
{
    lemma_plans_of_input(input);
}

/// Under a dynamic scope every metric is registered under the prefix given to
/// the constructor, the separator, and its name.
pub proof fn dynamic_metric_keys(input: DeriveInput, prefix: Seq<char>, instance: Seq<LabelPair>)
    requires
        expansion_of(input) matches Ok(e) && e.scope is Dynamic,
    ensures
        ({
            let e = expansion_of(input)->Ok_0;
            let regs = registrations_of(e, prefix, instance);
            forall|j: int|
                0 <= j < regs.len() ==> (#[trigger] regs[j]).key == prefix + e.separator + metric_plans(
                    e.fields,
                )[j].name
        }),
{
    lemma_plans_of_input(input);
}

/// Labels are applied in the order: instance labels, then struct-level
/// labels, then the field's own labels.
pub proof fn registration_label_order(e: ExpansionView, prefix: Seq<char>, instance: Seq<LabelPair>)
    ensures
        forall|j: int|
            0 <= j < registrations_of(e, prefix, instance).len() ==> (#[trigger] registrations_of(
                e,
                prefix,
                instance,
            )[j]).labels == instance + e.global_labels + metric_plans(e.fields)[j].labels,
{
}

/// Every registered metric is described, under the same key and with the
/// same kind, and nothing else is described.
pub proof fn described_as_registered(e: ExpansionView, prefix: Seq<char>, instance: Seq<LabelPair>)
    ensures
        descriptions_of(e, prefix).len() == registrations_of(e, prefix, instance).len(),
        forall|j: int|
            0 <= j < descriptions_of(e, prefix).len() ==> (#[trigger] descriptions_of(e, prefix)[j]).key
                == registrations_of(e, prefix, instance)[j].key && descriptions_of(e, prefix)[j].kind
                == registrations_of(e, prefix, instance)[j].kind,
{
}

} // verus!
