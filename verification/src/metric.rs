//! One metric field: its name, and which recorder methods register and
//! describe it.

use vstd::prelude::*;
use crate::model::{copy_opt, Diagnostic, Field, FieldType, LabelPair, Problem};
use crate::text::same_text;

verus! {

/// The metric types a field can have.
#[derive(Clone, Copy, Debug, PartialEq, Eq, Structural)]
pub enum MetricKind {
    Counter,
    Histogram,
    Gauge,
}

/// A field that is instrumented as a metric.
pub struct Metric<'a> {
    pub field: &'a Field,
    pub description: String,
    pub labels: Vec<LabelPair>,
    pub rename: Option<String>,
}

/// A metric field seen with the contents of its texts and lists.
pub struct MetricView {
    pub field: Field,
    pub description: Seq<char>,
    pub labels: Seq<LabelPair>,
    pub rename: Option<String>,
}

impl<'a> View for Metric<'a> {
    type V = MetricView;

    open spec fn view(&self) -> MetricView {
        MetricView {
            field: *self.field,
            description: self.description@,
            labels: self.labels@,
            rename: self.rename,
        }
    }
}

/// The name of a metric: its `rename` when given, otherwise the field's
/// identifier (empty for an unnamed field).
pub open spec fn metric_name(m: MetricView) -> Seq<char> {
    match m.rename {
        Some(r) => r@,
        None => match m.field.ident {
            Some(i) => i@,
            None => Seq::empty(),
        },
    }
}

/// The metric kind that a field's type names by the last segment of its path,
/// or a refusal at the type.
pub open spec fn metric_kind(ty: FieldType) -> Result<MetricKind, Diagnostic> {
    match ty.last_segment {
        Some(s) => if s@ == "Counter"@ {
            Ok(MetricKind::Counter)
        } else if s@ == "Histogram"@ {
            Ok(MetricKind::Histogram)
        } else if s@ == "Gauge"@ {
            Ok(MetricKind::Gauge)
        } else {
            Err(Diagnostic { node: ty.node, problem: Problem::UnsupportedMetricType })
        },
        None => Err(Diagnostic { node: ty.node, problem: Problem::UnsupportedMetricType }),
    }
}

fn kind_of_type(ty: &FieldType) -> (r: Result<MetricKind, Diagnostic>)
    ensures
        r == metric_kind(*ty),
{
    match &ty.last_segment {
        Some(s) => {
            if same_text(s, "Counter") {
                Ok(MetricKind::Counter)
            } else if same_text(s, "Histogram") {
                Ok(MetricKind::Histogram)
            } else if same_text(s, "Gauge") {
                Ok(MetricKind::Gauge)
            } else {
                Err(Diagnostic { node: ty.node, problem: Problem::UnsupportedMetricType })
            }
        },
        None => Err(Diagnostic { node: ty.node, problem: Problem::UnsupportedMetricType }),
    }
}

impl<'a> Metric<'a> {
    /// A metric for `field`.
    pub fn new(field: &'a Field, description: String, rename: Option<String>, labels: Vec<LabelPair>) -> (r: Self)
        ensures
            r.field == field,
            r.description == description,
            r.rename == rename,
            r.labels == labels,
    {
        Metric { field, description, labels, rename }
    }

    /// The metric's name: the `rename` value, or else the field's identifier.
    pub fn name(&self) -> (r: String)
        ensures
            r@ == metric_name(self@),
    {
        match &self.rename {
            Some(name) => name.clone(),
            None => match copy_opt(&self.field.ident) {
                Some(i) => i,
                None => String::new(),
            },
        }
    }

    /// Which recorder method registers the metric: chosen by the field type's
    /// last path segment (`Counter`, `Histogram`, `Gauge`); any other type is
    /// refused at the type.
    pub fn register_method(&self) -> (r: Result<MetricKind, Diagnostic>)
        ensures
            r == metric_kind(self.field.ty),
    {
        kind_of_type(&self.field.ty)
    }

    /// Which recorder method describes the metric; chosen and refused exactly
    /// as `register_method` is.
    pub fn describe_method(&self) -> (r: Result<MetricKind, Diagnostic>)
        ensures
            r == metric_kind(self.field.ty),
    {
        kind_of_type(&self.field.ty)
    }
}

} // verus!
