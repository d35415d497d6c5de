//! Reading the whole derive input, and the expansion it produces.

use vstd::prelude::*;
use crate::attrs::{
    bool_lit, docs_text, expr_lit, labels_of, parse_bool_lit, parse_docs_to_string, parse_expr_lit,
    parse_labels_expr, parse_single_attr, parse_single_required_attr, parse_str_lit, required_attr,
    single_attr, str_lit,
};
use crate::metric::{metric_kind, metric_name, Metric, MetricKind, MetricView};
use crate::model::{
    check_ident, copy_labels, copy_opt, ident_is, AttrName, Data, DeriveInput, Diagnostic, EntryKey, Field, LabelPair, Meta,
    NameValue, Problem,
};
use crate::text::concat3;
use crate::seqs::{
    fold_until_err, lemma_fold_err_stays, lemma_fold_step, lemma_map_err_stays, lemma_map_step,
    map_until_err,
};

verus! {

/// Where the metric names of the struct are scoped.
pub enum MetricsScope {
    /// Under a prefix fixed by `scope = ".."`.
    Static(String),
    /// Under a prefix given when the metrics are created (`dynamic = true`).
    Dynamic,
}

/// The struct-level `#[metrics(..)]` settings.
pub struct MetricsAttr {
    pub scope: MetricsScope,
    pub separator: Option<String>,
    pub labels: Vec<LabelPair>,
}

/// `MetricsAttr` seen with the contents of its label list.
pub struct MetricsAttrView {
    pub scope: MetricsScope,
    pub separator: Option<String>,
    pub labels: Seq<LabelPair>,
}

impl View for MetricsAttr {
    type V = MetricsAttrView;

    open spec fn view(&self) -> MetricsAttrView {
        MetricsAttrView { scope: self.scope, separator: self.separator, labels: self.labels@ }
    }
}

/// The separator between scope and name: the one given, or `.`.
pub open spec fn separator_text(sep: Option<String>) -> Seq<char> {
    match sep {
        Some(s) => s@,
        None => "."@,
    }
}

impl MetricsAttr {
    /// The separator between scope and metric name; `.` unless one is given.
    pub fn separator(&self) -> (r: String)
        ensures
            r@ == separator_text(self.separator),
    {
        match &self.separator {
            Some(sep) => sep.clone(),
            None => String::from_str("."),
        }
    }
}

/// The `#[metrics(..)]` entries read so far.
pub struct StructEntries {
    pub scope: Option<String>,
    pub separator: Option<String>,
    pub dynamic: Option<bool>,
    pub labels: Option<Seq<LabelPair>>,
}

/// No entry read yet.
pub open spec fn no_struct_entries() -> StructEntries {
    StructEntries { scope: None, separator: None, dynamic: None, labels: None }
}

/// Reads one `key = value` entry of `#[metrics(..)]`. `labels` takes a label
/// list; every other key takes a literal: `scope` and `separator` a string,
/// `dynamic` a boolean. A key given twice, or any other key, is refused.
pub open spec fn struct_entry(st: StructEntries, kv: NameValue) -> Result<StructEntries, Diagnostic> {
    if ident_is(kv.ident, "labels"@) {
        if st.labels is Some {
            Err(Diagnostic { node: kv.node, problem: Problem::DuplicateEntry(EntryKey::Labels) })
        } else {
            match labels_of(kv.value) {
                Err(e) => Err(e),
                Ok(ls) => Ok(StructEntries { labels: Some(ls), ..st }),
            }
        }
    } else {
        match expr_lit(kv.value) {
            Err(e) => Err(e),
            Ok(lit) => if ident_is(kv.ident, "scope"@) {
                if st.scope is Some {
                    Err(Diagnostic { node: kv.node, problem: Problem::DuplicateEntry(EntryKey::Scope) })
                } else {
                    match str_lit(lit, kv.value.node) {
                        Err(e) => Err(e),
                        Ok(s) => Ok(StructEntries { scope: Some(s), ..st }),
                    }
                }
            } else if ident_is(kv.ident, "separator"@) {
                if st.separator is Some {
                    Err(Diagnostic { node: kv.node, problem: Problem::DuplicateEntry(EntryKey::Separator) })
                } else {
                    match str_lit(lit, kv.value.node) {
                        Err(e) => Err(e),
                        Ok(s) => Ok(StructEntries { separator: Some(s), ..st }),
                    }
                }
            } else if ident_is(kv.ident, "dynamic"@) {
                if st.dynamic is Some {
                    Err(Diagnostic { node: kv.node, problem: Problem::DuplicateDynamic })
                } else {
                    match bool_lit(lit, kv.value.node) {
                        Err(e) => Err(e),
                        Ok(b) => Ok(StructEntries { dynamic: Some(b), ..st }),
                    }
                }
            } else {
                Err(Diagnostic { node: kv.node, problem: Problem::UnsupportedEntry })
            },
        }
    }
}

/// All entries of `#[metrics(..)]`, read in order.
pub open spec fn struct_entries(kvs: Seq<NameValue>) -> Result<StructEntries, Diagnostic> {
    fold_until_err(kvs, no_struct_entries(), |st: StructEntries, kv: NameValue| struct_entry(st, kv))
}

/// The scope set by the entries: a `scope` without `dynamic = true`, or
/// `dynamic = true` without a `scope`; anything else is refused at the item.
pub open spec fn scope_of(scope: Option<String>, dynamic: Option<bool>, node: usize) -> Result<MetricsScope, Diagnostic> {
    match scope {
        Some(s) => match dynamic {
            Some(true) => Err(Diagnostic { node, problem: Problem::ScopeConflictsWithDynamic }),
            _ => Ok(MetricsScope::Static(s)),
        },
        None => match dynamic {
            Some(true) => Ok(MetricsScope::Dynamic),
            _ => Err(Diagnostic { node, problem: Problem::ScopeOrDynamicRequired }),
        },
    }
}

/// The struct-level settings of the input, or the first refusal.
pub open spec fn metrics_attr(input: DeriveInput) -> Result<MetricsAttrView, Diagnostic> {
    match required_attr(input.attrs@, input.node, AttrName::Metrics) {
        Err(e) => Err(e),
        Ok(i) => match input.attrs@[i].name_values {
            Err(n) => Err(Diagnostic { node: n, problem: Problem::Syntax }),
            Ok(kvs) => match struct_entries(kvs@) {
                Err(e) => Err(e),
                Ok(st) => match scope_of(st.scope, st.dynamic, input.node) {
                    Err(e) => Err(e),
                    Ok(scope) => Ok(
                        MetricsAttrView {
                            scope,
                            separator: st.separator,
                            labels: match st.labels {
                                Some(l) => l,
                                None => Seq::empty(),
                            },
                        },
                    ),
                },
            },
        },
    }
}

struct StructAcc {
    scope: Option<String>,
    separator: Option<String>,
    dynamic: Option<bool>,
    labels: Option<Vec<LabelPair>>,
}

impl View for StructAcc {
    type V = StructEntries;

    closed spec fn view(&self) -> StructEntries {
        StructEntries {
            scope: self.scope,
            separator: self.separator,
            dynamic: self.dynamic,
            labels: match self.labels {
                Some(l) => Some(l@),
                None => None,
            },
        }
    }
}

fn read_struct_entry(st: StructAcc, kv: &NameValue) -> (r: Result<StructAcc, Diagnostic>)
    ensures
        match r {
            Ok(n) => struct_entry(st@, *kv) == Ok::<StructEntries, Diagnostic>(n@),
            Err(e) => struct_entry(st@, *kv) == Err::<StructEntries, Diagnostic>(e),
        },
{
    if check_ident(&kv.ident, "labels") {
        if st.labels.is_some() {
            return Err(Diagnostic { node: kv.node, problem: Problem::DuplicateEntry(EntryKey::Labels) });
        }
        let labels = parse_labels_expr(&kv.value)?;
        return Ok(StructAcc { scope: st.scope, separator: st.separator, dynamic: st.dynamic, labels: Some(labels) });
    }
    let lit = parse_expr_lit(&kv.value)?;
    if check_ident(&kv.ident, "scope") {
        if st.scope.is_some() {
            return Err(Diagnostic { node: kv.node, problem: Problem::DuplicateEntry(EntryKey::Scope) });
        }
        let s = parse_str_lit(lit, kv.value.node)?;
        Ok(StructAcc { scope: Some(s), separator: st.separator, dynamic: st.dynamic, labels: st.labels })
    } else if check_ident(&kv.ident, "separator") {
        if st.separator.is_some() {
            return Err(Diagnostic { node: kv.node, problem: Problem::DuplicateEntry(EntryKey::Separator) });
        }
        let s = parse_str_lit(lit, kv.value.node)?;
        Ok(StructAcc { scope: st.scope, separator: Some(s), dynamic: st.dynamic, labels: st.labels })
    } else if check_ident(&kv.ident, "dynamic") {
        if st.dynamic.is_some() {
            return Err(Diagnostic { node: kv.node, problem: Problem::DuplicateDynamic });
        }
        let b = parse_bool_lit(lit, kv.value.node)?;
        Ok(StructAcc { scope: st.scope, separator: st.separator, dynamic: Some(b), labels: st.labels })
    } else {
        Err(Diagnostic { node: kv.node, problem: Problem::UnsupportedEntry })
    }
}

/// Reads the struct's `#[metrics(..)]` attribute: it must occur exactly once,
/// its entries are read in order (the first refusal wins), and it must set
/// either a `scope` or `dynamic = true`, not both.
pub fn parse_metrics_attr(node: &DeriveInput) -> (r: Result<MetricsAttr, Diagnostic>)
    ensures
        match r {
            Ok(a) => metrics_attr(*node) == Ok::<MetricsAttrView, Diagnostic>(a@),
            Err(e) => metrics_attr(*node) == Err::<MetricsAttrView, Diagnostic>(e),
        },
{
    let idx = parse_single_required_attr(&node.attrs, node.node, AttrName::Metrics)?;
    let kvs = match &node.attrs[idx].name_values {
        Err(n) => {
            return Err(Diagnostic { node: *n, problem: Problem::Syntax });
        },
        Ok(kvs) => kvs,
    };
    let ghost f = |st: StructEntries, kv: NameValue| struct_entry(st, kv);
    let mut st = StructAcc { scope: None, separator: None, dynamic: None, labels: None };
    let mut i: usize = 0;
    proof {
        assert(kvs@.take(0) =~= Seq::<NameValue>::empty());
    }
    while i < kvs.len()
        invariant
            i <= kvs.len(),
            f == (|st: StructEntries, kv: NameValue| struct_entry(st, kv)),
            idx < node.attrs.len(),
            required_attr(node.attrs@, node.node, AttrName::Metrics) == Ok::<int, Diagnostic>(idx as int),
            node.attrs@[idx as int].name_values == Ok::<Vec<NameValue>, usize>(*kvs),
            fold_until_err(kvs@.take(i as int), no_struct_entries(), f) == Ok::<StructEntries, Diagnostic>(st@),
        decreases kvs.len() - i,
    {
        proof {
            lemma_fold_step(kvs@, no_struct_entries(), f, i as int);
        }
        match read_struct_entry(st, &kvs[i]) {
            Err(e) => {
                proof {
                    lemma_fold_err_stays(kvs@, no_struct_entries(), f, i + 1);
                    assert(f =~= (|st: StructEntries, kv: NameValue| struct_entry(st, kv)));
                }
                return Err(e);
            },
            Ok(n) => {
                st = n;
            },
        }
        i = i + 1;
    }
    proof {
        assert(kvs@.take(kvs.len() as int) =~= kvs@);
        assert(f =~= (|st: StructEntries, kv: NameValue| struct_entry(st, kv)));
    }
    let scope = match st.scope {
        Some(s) => match st.dynamic {
            Some(true) => {
                return Err(Diagnostic { node: node.node, problem: Problem::ScopeConflictsWithDynamic });
            },
            _ => MetricsScope::Static(s),
        },
        None => match st.dynamic {
            Some(true) => MetricsScope::Dynamic,
            _ => {
                return Err(Diagnostic { node: node.node, problem: Problem::ScopeOrDynamicRequired });
            },
        },
    };
    let labels = match st.labels {
        Some(l) => l,
        None => Vec::new(),
    };
    Ok(MetricsAttr { scope, separator: st.separator, labels })
}

/// The `#[metric(..)]` entries of a field read so far.
pub struct FieldEntries {
    pub describe: Option<String>,
    pub rename: Option<String>,
    pub labels: Option<Seq<LabelPair>>,
    pub skip: bool,
}

/// No entry read yet.
pub open spec fn no_field_entries() -> FieldEntries {
    FieldEntries { describe: None, rename: None, labels: None, skip: false }
}

/// Reads one entry of `#[metric(..)]`: `skip`, `labels = [..]`, or
/// `describe` / `rename` with a string literal. A key given twice, or any other
/// entry, is refused.
pub open spec fn field_entry(st: FieldEntries, m: Meta) -> Result<FieldEntries, Diagnostic> {
    match m {
        Meta::Path { node, ident } => if ident_is(ident, "skip"@) {
            Ok(FieldEntries { skip: true, ..st })
        } else {
            Err(Diagnostic { node, problem: Problem::UnsupportedEntry })
        },
        Meta::NameValue(kv) => if ident_is(kv.ident, "labels"@) {
            if st.labels is Some {
                Err(Diagnostic { node: kv.node, problem: Problem::DuplicateEntry(EntryKey::Labels) })
            } else {
                match labels_of(kv.value) {
                    Err(e) => Err(e),
                    Ok(ls) => Ok(FieldEntries { labels: Some(ls), ..st }),
                }
            }
        } else if ident_is(kv.ident, "describe"@) {
            if st.describe is Some {
                Err(Diagnostic { node: kv.node, problem: Problem::DuplicateEntry(EntryKey::Describe) })
            } else {
                match expr_lit(kv.value) {
                    Err(e) => Err(e),
                    Ok(lit) => match str_lit(lit, kv.value.node) {
                        Err(e) => Err(e),
                        Ok(d) => Ok(FieldEntries { describe: Some(d), ..st }),
                    },
                }
            }
        } else if ident_is(kv.ident, "rename"@) {
            if st.rename is Some {
                Err(Diagnostic { node: kv.node, problem: Problem::DuplicateEntry(EntryKey::Rename) })
            } else {
                match expr_lit(kv.value) {
                    Err(e) => Err(e),
                    Ok(lit) => match str_lit(lit, kv.value.node) {
                        Err(e) => Err(e),
                        Ok(r) => Ok(FieldEntries { rename: Some(r), ..st }),
                    },
                }
            }
        } else {
            Err(Diagnostic { node: kv.node, problem: Problem::UnsupportedEntry })
        },
        Meta::List { node } => Err(Diagnostic { node, problem: Problem::UnsupportedEntry }),
    }
}

/// The entries of a field's `#[metric(..)]` attribute (none when the field
/// has no such attribute), read in order.
pub open spec fn field_entries(field: Field) -> Result<FieldEntries, Diagnostic> {
    match single_attr(field.attrs@, AttrName::Metric) {
        Err(e) => Err(e),
        Ok(None) => Ok(no_field_entries()),
        Ok(Some(i)) => match field.attrs@[i].metas {
            Err(n) => Err(Diagnostic { node: n, problem: Problem::Syntax }),
            Ok(ms) => fold_until_err(ms@, no_field_entries(), |st: FieldEntries, m: Meta| field_entry(st, m)),
        },
    }
}

/// A field of the struct, as the derive treats it.
pub enum MetricField<'a> {
    /// Instrumented as a metric.
    Included(Metric<'a>),
    /// Marked `skip`: left to its `Default`.
    Skipped(&'a Field),
}

/// `MetricField` seen through the view of its metric.
pub enum MetricFieldView {
    Included(MetricView),
    Skipped(Field),
}

impl<'a> View for MetricField<'a> {
    type V = MetricFieldView;

    open spec fn view(&self) -> MetricFieldView {
        match self {
            MetricField::Included(m) => MetricFieldView::Included(m@),
            MetricField::Skipped(f) => MetricFieldView::Skipped(**f),
        }
    }
}

/// The field a `MetricFieldView` stands for.
pub open spec fn view_field(m: MetricFieldView) -> Field {
    match m {
        MetricFieldView::Included(m) => m.field,
        MetricFieldView::Skipped(f) => f,
    }
}

impl<'a> MetricField<'a> {
    /// The field this stands for.
    pub fn field(&self) -> (r: &'a Field)
        ensures
            *r == view_field(self@),
    {
        match self {
            MetricField::Included(m) => m.field,
            MetricField::Skipped(f) => f,
        }
    }
}

/// How the derive treats one field: skipped when its entries say `skip`;
/// otherwise a metric described by its `describe` entry, or else by its doc
/// comments, and refused when it has neither.
pub open spec fn field_metric(field: Field) -> Result<MetricFieldView, Diagnostic> {
    match field_entries(field) {
        Err(e) => Err(e),
        Ok(st) => if st.skip {
            Ok(MetricFieldView::Skipped(field))
        } else {
            let description = match st.describe {
                Some(d) => Some(d@),
                None => docs_text(field.attrs@),
            };
            match description {
                None => Err(Diagnostic { node: field.node, problem: Problem::DescriptionRequired }),
                Some(d) => Ok(
                    MetricFieldView::Included(
                        MetricView {
                            field,
                            description: d,
                            labels: match st.labels {
                                Some(l) => l,
                                None => Seq::empty(),
                            },
                            rename: st.rename,
                        },
                    ),
                ),
            }
        },
    }
}

/// How the derive treats each field of the input, in order; only structs are
/// accepted.
pub open spec fn metric_fields(input: DeriveInput) -> Result<Seq<MetricFieldView>, Diagnostic> {
    match input.data {
        Data::Struct(fields) => map_until_err(fields@, |f: Field| field_metric(f)),
        Data::Other => Err(Diagnostic { node: input.node, problem: Problem::OnlyStructs }),
    }
}

struct FieldAcc {
    describe: Option<String>,
    rename: Option<String>,
    labels: Option<Vec<LabelPair>>,
    skip: bool,
}

impl View for FieldAcc {
    type V = FieldEntries;

    closed spec fn view(&self) -> FieldEntries {
        FieldEntries {
            describe: self.describe,
            rename: self.rename,
            labels: match self.labels {
                Some(l) => Some(l@),
                None => None,
            },
            skip: self.skip,
        }
    }
}

fn read_field_entry(st: FieldAcc, m: &Meta) -> (r: Result<FieldAcc, Diagnostic>)
    ensures
        match r {
            Ok(n) => field_entry(st@, *m) == Ok::<FieldEntries, Diagnostic>(n@),
            Err(e) => field_entry(st@, *m) == Err::<FieldEntries, Diagnostic>(e),
        },
{
    match m {
        Meta::Path { node, ident } => {
            if check_ident(ident, "skip") {
                Ok(FieldAcc { describe: st.describe, rename: st.rename, labels: st.labels, skip: true })
            } else {
                Err(Diagnostic { node: *node, problem: Problem::UnsupportedEntry })
            }
        },
        Meta::NameValue(kv) => {
            if check_ident(&kv.ident, "labels") {
                if st.labels.is_some() {
                    return Err(Diagnostic { node: kv.node, problem: Problem::DuplicateEntry(EntryKey::Labels) });
                }
                let labels = parse_labels_expr(&kv.value)?;
                Ok(FieldAcc { describe: st.describe, rename: st.rename, labels: Some(labels), skip: st.skip })
            } else if check_ident(&kv.ident, "describe") {
                if st.describe.is_some() {
                    return Err(Diagnostic { node: kv.node, problem: Problem::DuplicateEntry(EntryKey::Describe) });
                }
                let lit = parse_expr_lit(&kv.value)?;
                let d = parse_str_lit(lit, kv.value.node)?;
                Ok(FieldAcc { describe: Some(d), rename: st.rename, labels: st.labels, skip: st.skip })
            } else if check_ident(&kv.ident, "rename") {
                if st.rename.is_some() {
                    return Err(Diagnostic { node: kv.node, problem: Problem::DuplicateEntry(EntryKey::Rename) });
                }
                let lit = parse_expr_lit(&kv.value)?;
                let r = parse_str_lit(lit, kv.value.node)?;
                Ok(FieldAcc { describe: st.describe, rename: Some(r), labels: st.labels, skip: st.skip })
            } else {
                Err(Diagnostic { node: kv.node, problem: Problem::UnsupportedEntry })
            }
        },
        Meta::List { node } => Err(Diagnostic { node: *node, problem: Problem::UnsupportedEntry }),
    }
}

fn read_field_entries(field: &Field) -> (r: Result<FieldAcc, Diagnostic>)
    ensures
        match r {
            Ok(n) => field_entries(*field) == Ok::<FieldEntries, Diagnostic>(n@),
            Err(e) => field_entries(*field) == Err::<FieldEntries, Diagnostic>(e),
        },
{
    let empty = FieldAcc { describe: None, rename: None, labels: None, skip: false };
    let idx = match parse_single_attr(&field.attrs, AttrName::Metric)? {
        None => {
            return Ok(empty);
        },
        Some(idx) => idx,
    };
    let metas = match &field.attrs[idx].metas {
        Err(n) => {
            return Err(Diagnostic { node: *n, problem: Problem::Syntax });
        },
        Ok(metas) => metas,
    };
    let ghost f = |st: FieldEntries, m: Meta| field_entry(st, m);
    let mut st = empty;
    let mut i: usize = 0;
    proof {
        assert(metas@.take(0) =~= Seq::<Meta>::empty());
    }
    while i < metas.len()
        invariant
            i <= metas.len(),
            f == (|st: FieldEntries, m: Meta| field_entry(st, m)),
            idx < field.attrs.len(),
            single_attr(field.attrs@, AttrName::Metric) == Ok::<Option<int>, Diagnostic>(Some(idx as int)),
            field.attrs@[idx as int].metas == Ok::<Vec<Meta>, usize>(*metas),
            fold_until_err(metas@.take(i as int), no_field_entries(), f) == Ok::<FieldEntries, Diagnostic>(st@),
        decreases metas.len() - i,
    {
        proof {
            lemma_fold_step(metas@, no_field_entries(), f, i as int);
        }
        match read_field_entry(st, &metas[i]) {
            Err(e) => {
                proof {
                    lemma_fold_err_stays(metas@, no_field_entries(), f, i + 1);
                    assert(f =~= (|st: FieldEntries, m: Meta| field_entry(st, m)));
                }
                return Err(e);
            },
            Ok(n) => {
                st = n;
            },
        }
        i = i + 1;
    }
    proof {
        assert(metas@.take(metas.len() as int) =~= metas@);
        assert(f =~= (|st: FieldEntries, m: Meta| field_entry(st, m)));
    }
    Ok(st)
}

fn read_field<'a>(field: &'a Field) -> (r: Result<MetricField<'a>, Diagnostic>)
    ensures
        match r {
            Ok(m) => field_metric(*field) == Ok::<MetricFieldView, Diagnostic>(m@),
            Err(e) => field_metric(*field) == Err::<MetricFieldView, Diagnostic>(e),
        },
{
    let st = read_field_entries(field)?;
    if st.skip {
        return Ok(MetricField::Skipped(field));
    }
    let description = match st.describe {
        Some(d) => d,
        None => match parse_docs_to_string(&field.attrs)? {
            Some(docs) => docs,
            None => {
                return Err(Diagnostic { node: field.node, problem: Problem::DescriptionRequired });
            },
        },
    };
    let labels = match st.labels {
        Some(l) => l,
        None => Vec::new(),
    };
    Ok(MetricField::Included(Metric::new(field, description, st.rename, labels)))
}

/// Reads every field of the struct in order: how each is treated, or the
/// first refusal. Anything but a struct is refused.
pub fn parse_metric_fields<'a>(node: &'a DeriveInput) -> (r: Result<Vec<MetricField<'a>>, Diagnostic>)
    ensures
        match r {
            Ok(v) => metric_fields(*node) == Ok::<Seq<MetricFieldView>, Diagnostic>(
                v@.map_values(|m: MetricField<'a>| m@),
            ),
            Err(e) => metric_fields(*node) == Err::<Seq<MetricFieldView>, Diagnostic>(e),
        },
{
    let fields = match &node.data {
        Data::Struct(fields) => fields,
        Data::Other => {
            return Err(Diagnostic { node: node.node, problem: Problem::OnlyStructs });
        },
    };
    let ghost f = |fl: Field| field_metric(fl);
    let mut metrics: Vec<MetricField<'a>> = Vec::new();
    let mut i: usize = 0;
    proof {
        assert(fields@.take(0) =~= Seq::<Field>::empty());
        assert(metrics@.map_values(|m: MetricField<'a>| m@) =~= Seq::<MetricFieldView>::empty());
    }
    while i < fields.len()
        invariant
            i <= fields.len(),
            f == (|fl: Field| field_metric(fl)),
            node.data == Data::Struct(*fields),
            map_until_err(fields@.take(i as int), f) == Ok::<Seq<MetricFieldView>, Diagnostic>(
                metrics@.map_values(|m: MetricField<'a>| m@),
            ),
        decreases fields.len() - i,
    {
        proof {
            lemma_map_step(fields@, f, i as int);
        }
        match read_field(&fields[i]) {
            Err(e) => {
                proof {
                    lemma_map_err_stays(fields@, f, i + 1);
                    assert(f =~= (|fl: Field| field_metric(fl)));
                }
                return Err(e);
            },
            Ok(m) => {
                let ghost before = metrics@;
                metrics.push(m);
                proof {
                    assert(metrics@.map_values(|m: MetricField<'a>| m@) =~= before.map_values(
                        |m: MetricField<'a>| m@,
                    ).push(m@));
                }
            },
        }
        i = i + 1;
    }
    proof {
        assert(fields@.take(fields.len() as int) =~= fields@);
        assert(f =~= (|fl: Field| field_metric(fl)));
    }
    Ok(metrics)
}

/// What the derived code does for one metric field.
pub struct MetricPlan {
    /// The field's identifier.
    pub field: Option<String>,
    /// The metric's name, without scope.
    pub name: String,
    /// For a static scope, the full key `scope`, separator, `name`; `None`
    /// for a dynamic scope, whose key is formed when the metrics are created.
    pub static_name: Option<String>,
    pub kind: MetricKind,
    pub description: String,
    /// The field's own labels.
    pub labels: Vec<LabelPair>,
}

/// `MetricPlan` seen with the contents of its texts and lists.
pub struct MetricPlanView {
    pub field: Option<String>,
    pub name: Seq<char>,
    pub static_name: Option<Seq<char>>,
    pub kind: MetricKind,
    pub description: Seq<char>,
    pub labels: Seq<LabelPair>,
}

impl View for MetricPlan {
    type V = MetricPlanView;

    open spec fn view(&self) -> MetricPlanView {
        MetricPlanView {
            field: self.field,
            name: self.name@,
            static_name: match self.static_name {
                Some(n) => Some(n@),
                None => None,
            },
            kind: self.kind,
            description: self.description@,
            labels: self.labels@,
        }
    }
}

/// What the derived code does for one field.
pub enum FieldPlan {
    /// Registers the metric (and describes it).
    Metric(MetricPlan),
    /// A skipped field, given by its identifier: set to its `Default`.
    Skipped(Option<String>),
}

/// `FieldPlan` seen through the view of its metric.
pub enum FieldPlanView {
    Metric(MetricPlanView),
    Skipped(Option<String>),
}

impl View for FieldPlan {
    type V = FieldPlanView;

    open spec fn view(&self) -> FieldPlanView {
        match self {
            FieldPlan::Metric(p) => FieldPlanView::Metric(p@),
            FieldPlan::Skipped(f) => FieldPlanView::Skipped(*f),
        }
    }
}

/// The decisions of the derive for one struct, from which its code is written.
pub struct Expansion {
    /// The struct's name (its `Debug` output).
    pub struct_name: String,
    pub scope: MetricsScope,
    pub separator: String,
    /// The struct-level labels.
    pub global_labels: Vec<LabelPair>,
    /// One plan per field, in declaration order.
    pub fields: Vec<FieldPlan>,
}

/// `Expansion` seen with the contents of its texts and lists.
pub struct ExpansionView {
    pub struct_name: String,
    pub scope: MetricsScope,
    pub separator: Seq<char>,
    pub global_labels: Seq<LabelPair>,
    pub fields: Seq<FieldPlanView>,
}

impl View for Expansion {
    type V = ExpansionView;

    open spec fn view(&self) -> ExpansionView {
        ExpansionView {
            struct_name: self.struct_name,
            scope: self.scope,
            separator: self.separator@,
            global_labels: self.global_labels@,
            fields: self.fields@.map_values(|p: FieldPlan| p@),
        }
    }
}

/// The full key of a metric under a static scope.
pub open spec fn static_key(attr: MetricsAttrView, m: MetricView) -> Option<Seq<char>> {
    match attr.scope {
        MetricsScope::Static(s) => Some(s@ + separator_text(attr.separator) + metric_name(m)),
        MetricsScope::Dynamic => None,
    }
}

/// The plan for one field: a skipped field is left to its default; a metric
/// field is registered and described under its name, with the kind its type
/// names, or refused when its type names none.
pub open spec fn plan_field(attr: MetricsAttrView, mf: MetricFieldView) -> Result<FieldPlanView, Diagnostic> {
    match mf {
        MetricFieldView::Skipped(f) => Ok(FieldPlanView::Skipped(f.ident)),
        MetricFieldView::Included(m) => match metric_kind(m.field.ty) {
            Err(e) => Err(e),
            Ok(kind) => Ok(
                FieldPlanView::Metric(
                    MetricPlanView {
                        field: m.field.ident,
                        name: metric_name(m),
                        static_name: static_key(attr, m),
                        kind,
                        description: m.description,
                        labels: m.labels,
                    },
                ),
            ),
        },
    }
}

/// What the derive decides for the input, or its first refusal: the
/// struct-level settings are read first, then the fields, then each metric
/// field's type.
pub open spec fn expansion_of(input: DeriveInput) -> Result<ExpansionView, Diagnostic> {
    match metrics_attr(input) {
        Err(e) => Err(e),
        Ok(attr) => match metric_fields(input) {
            Err(e) => Err(e),
            Ok(mfs) => match map_until_err(mfs, |mf: MetricFieldView| plan_field(attr, mf)) {
                Err(e) => Err(e),
                Ok(plans) => Ok(
                    ExpansionView {
                        struct_name: input.ident,
                        scope: attr.scope,
                        separator: separator_text(attr.separator),
                        global_labels: attr.labels,
                        fields: plans,
                    },
                ),
            },
        },
    }
}

fn copy_scope(s: &MetricsScope) -> (r: MetricsScope)
    ensures
        r == *s,
{
    match s {
        MetricsScope::Static(x) => MetricsScope::Static(x.clone()),
        MetricsScope::Dynamic => MetricsScope::Dynamic,
    }
}

fn plan_metric_field(attr: &MetricsAttr, separator: &String, mf: &MetricField) -> (r: Result<FieldPlan, Diagnostic>)
    requires
        separator@ == separator_text(attr.separator),
    ensures
        match r {
            Ok(p) => plan_field(attr@, mf@) == Ok::<FieldPlanView, Diagnostic>(p@),
            Err(e) => plan_field(attr@, mf@) == Err::<FieldPlanView, Diagnostic>(e),
        },
{
    match mf {
        MetricField::Skipped(f) => Ok(FieldPlan::Skipped(copy_opt(&f.ident))),
        MetricField::Included(metric) => {
            let name = metric.name();
            let static_name = match &attr.scope {
                MetricsScope::Static(scope) => Some(concat3(scope.as_str(), separator.as_str(), name.as_str())),
                MetricsScope::Dynamic => None,
            };
            let kind = metric.register_method()?;
            let _describe_kind = metric.describe_method()?;
            Ok(
                FieldPlan::Metric(
                    MetricPlan {
                        field: copy_opt(&metric.field.ident),
                        name,
                        static_name,
                        kind,
                        description: metric.description.clone(),
                        labels: copy_labels(&metric.labels),
                    },
                ),
            )
        },
    }
}

/// Runs the derive on `node`: reads its `#[metrics(..)]` settings and its
/// fields, and plans the registration and description of every metric field,
/// or returns the first refusal.
pub fn derive(node: &DeriveInput) -> (r: Result<Expansion, Diagnostic>)
    ensures
        match r {
            Ok(e) => expansion_of(*node) == Ok::<ExpansionView, Diagnostic>(e@),
            Err(d) => expansion_of(*node) == Err::<ExpansionView, Diagnostic>(d),
        },
{
    let settings = parse_metrics_attr(node)?;
    let fields_read = parse_metric_fields(node)?;
    let separator = settings.separator();
    let ghost attr = settings@;
    let ghost mfs = fields_read@.map_values(|m: MetricField| m@);
    let ghost f = |mf: MetricFieldView| plan_field(attr, mf);
    let mut plans: Vec<FieldPlan> = Vec::new();
    let mut i: usize = 0;
    proof {
        assert(mfs.take(0) =~= Seq::<MetricFieldView>::empty());
        assert(plans@.map_values(|p: FieldPlan| p@) =~= Seq::<FieldPlanView>::empty());
    }
    while i < fields_read.len()
        invariant
            i <= fields_read.len(),
            attr == settings@,
            metrics_attr(*node) == Ok::<MetricsAttrView, Diagnostic>(attr),
            metric_fields(*node) == Ok::<Seq<MetricFieldView>, Diagnostic>(mfs),
            separator@ == separator_text(settings.separator),
            mfs == fields_read@.map_values(|m: MetricField| m@),
            f == (|mf: MetricFieldView| plan_field(attr, mf)),
            map_until_err(mfs.take(i as int), f) == Ok::<Seq<FieldPlanView>, Diagnostic>(
                plans@.map_values(|p: FieldPlan| p@),
            ),
        decreases fields_read.len() - i,
    {
        proof {
            lemma_map_step(mfs, f, i as int);
        }
        match plan_metric_field(&settings, &separator, &fields_read[i]) {
            Err(e) => {
                proof {
                    lemma_map_err_stays(mfs, f, i + 1);
                    assert(f =~= (|mf: MetricFieldView| plan_field(settings@, mf)));
                }
                return Err(e);
            },
            Ok(p) => {
                let ghost before = plans@;
                plans.push(p);
                proof {
                    assert(plans@.map_values(|p: FieldPlan| p@) =~= before.map_values(|p: FieldPlan| p@).push(p@));
                }
            },
        }
        i = i + 1;
    }
    proof {
        assert(mfs.take(mfs.len() as int) =~= mfs);
        assert(f =~= (|mf: MetricFieldView| plan_field(settings@, mf)));
    }
    Ok(
        Expansion {
            struct_name: node.ident.clone(),
            scope: copy_scope(&settings.scope),
            separator,
            global_labels: settings.labels,
            fields: plans,
        },
    )
}

} // verus!
