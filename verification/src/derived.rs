//! What the derived code does when it runs: which metrics the constructors
//! register, under which keys and labels, and which descriptions `describe`
//! records.

use vstd::prelude::*;
use crate::expand::{Expansion, ExpansionView, FieldPlan, FieldPlanView, MetricPlan, MetricPlanView};
use crate::metric::MetricKind;
use crate::model::{copy_label, copy_opt, LabelPair};
use crate::text::concat3;

verus! {

/// One registration made by a constructor of the derived struct.
pub struct Registration {
    /// The field that receives the registered handle.
    pub field: Option<String>,
    pub key: String,
    pub kind: MetricKind,
    pub labels: Vec<LabelPair>,
}

/// `Registration` seen with the contents of its texts and lists.
pub struct RegistrationView {
    pub field: Option<String>,
    pub key: Seq<char>,
    pub kind: MetricKind,
    pub labels: Seq<LabelPair>,
}

impl View for Registration {
    type V = RegistrationView;

    open spec fn view(&self) -> RegistrationView {
        RegistrationView { field: self.field, key: self.key@, kind: self.kind, labels: self.labels@ }
    }
}

/// One description recorded by `describe`.
pub struct Description {
    pub key: String,
    pub kind: MetricKind,
    pub description: String,
}

/// `Description` seen with the contents of its texts.
pub struct DescriptionView {
    pub key: Seq<char>,
    pub kind: MetricKind,
    pub description: Seq<char>,
}

impl View for Description {
    type V = DescriptionView;

    open spec fn view(&self) -> DescriptionView {
        DescriptionView { key: self.key@, kind: self.kind, description: self.description@ }
    }
}

/// The plans of the metric fields, in field order (skipped fields left out).
pub open spec fn metric_plans(fields: Seq<FieldPlanView>) -> Seq<MetricPlanView>
    decreases fields.len(),
{
    if fields.len() == 0 {
        Seq::empty()
    } else {
        let p = metric_plans(fields.drop_last());
        match fields.last() {
            FieldPlanView::Metric(m) => p.push(m),
            FieldPlanView::Skipped(_) => p,
        }
    }
}

/// The key of a metric: its static name, or else the runtime `scope`, the
/// separator and the metric's name.
pub open spec fn metric_key(p: MetricPlanView, separator: Seq<char>, scope: Seq<char>) -> Seq<char> {
    match p.static_name {
        Some(n) => n,
        None => scope + separator + p.name,
    }
}

/// The registration of one metric: the instance labels come first, then the
/// struct-level labels, then the field's own labels.
pub open spec fn registration_of(
    e: ExpansionView,
    p: MetricPlanView,
    scope: Seq<char>,
    instance: Seq<LabelPair>,
) -> RegistrationView {
    RegistrationView {
        field: p.field,
        key: metric_key(p, e.separator, scope),
        kind: p.kind,
        labels: instance + e.global_labels + p.labels,
    }
}

/// Every registration, in field order.
pub open spec fn registrations_of(e: ExpansionView, scope: Seq<char>, instance: Seq<LabelPair>) -> Seq<RegistrationView> {
    metric_plans(e.fields).map_values(|p: MetricPlanView| registration_of(e, p, scope, instance))
}

/// The description of one metric, under the key it is registered with.
pub open spec fn description_of(e: ExpansionView, p: MetricPlanView, scope: Seq<char>) -> DescriptionView {
    DescriptionView { key: metric_key(p, e.separator, scope), kind: p.kind, description: p.description }
}

/// Every description, in field order.
pub open spec fn descriptions_of(e: ExpansionView, scope: Seq<char>) -> Seq<DescriptionView> {
    metric_plans(e.fields).map_values(|p: MetricPlanView| description_of(e, p, scope))
}

proof fn lemma_metric_plans_step(fields: Seq<FieldPlanView>, i: int)
    requires
        0 <= i < fields.len(),
    ensures
        metric_plans(fields.take(i + 1)) == match fields[i] {
            FieldPlanView::Metric(m) => metric_plans(fields.take(i)).push(m),
            FieldPlanView::Skipped(_) => metric_plans(fields.take(i)),
        },
{
    assert(fields.take(i + 1).drop_last() =~= fields.take(i));
}

fn append_labels(r: &mut Vec<LabelPair>, v: &Vec<LabelPair>)
    ensures
        final(r)@ == old(r)@ + v@,
{
    let mut i: usize = 0;
    while i < v.len()
        invariant
            i <= v.len(),
            r@ =~= old(r)@ + v@.take(i as int),
        decreases v.len() - i,
    {
        r.push(copy_label(&v[i]));
        i = i + 1;
    }
    proof {
        assert(v@.take(v.len() as int) =~= v@);
    }
}

fn key_of(p: &MetricPlan, separator: &String, scope: &str) -> (r: String)
    ensures
        r@ == metric_key(p@, separator@, scope@),
{
    match &p.static_name {
        Some(n) => n.clone(),
        None => concat3(scope, separator.as_str(), p.name.as_str()),
    }
}

impl Expansion {
    /// The registrations made by the derived constructor: one per metric field
    /// in field order, each under its key, with the instance labels
    /// `instance_labels`, then the struct-level labels, then the field's own.
    /// `scope` is the prefix given to the constructor of a dynamically scoped
    /// struct; metrics with a static name do not read it.
    pub fn registrations(&self, scope: &str, instance_labels: &Vec<LabelPair>) -> (r: Vec<Registration>)
        ensures
            r@.map_values(|x: Registration| x@) == registrations_of(self@, scope@, instance_labels@),
    {
        let ghost fv = self@.fields;
        let ghost g = |p: MetricPlanView| registration_of(self@, p, scope@, instance_labels@);
        let mut out: Vec<Registration> = Vec::new();
        let mut i: usize = 0;
        proof {
            assert(fv.take(0) =~= Seq::<FieldPlanView>::empty());
            assert(out@.map_values(|x: Registration| x@) =~= Seq::<RegistrationView>::empty());
            assert(metric_plans(fv.take(0)).map_values(g) =~= Seq::<RegistrationView>::empty());
        }
        while i < self.fields.len()
            invariant
                i <= self.fields.len(),
                fv == self@.fields,
                fv.len() == self.fields@.len(),
                g == (|p: MetricPlanView| registration_of(self@, p, scope@, instance_labels@)),
                out@.map_values(|x: Registration| x@) == metric_plans(fv.take(i as int)).map_values(g),
            decreases self.fields.len() - i,
        {
            proof {
                lemma_metric_plans_step(fv, i as int);
                assert(fv[i as int] == self.fields@[i as int]@);
            }
            match &self.fields[i] {
                FieldPlan::Metric(p) => {
                    let mut labels = Vec::new();
                    append_labels(&mut labels, instance_labels);
                    append_labels(&mut labels, &self.global_labels);
                    append_labels(&mut labels, &p.labels);
                    let reg = Registration {
                        field: copy_opt(&p.field),
                        key: key_of(p, &self.separator, scope),
                        kind: p.kind,
                        labels,
                    };
                    let ghost before = out@;
                    out.push(reg);
                    proof {
                        let mp = metric_plans(fv.take(i as int));
                        assert(out@.map_values(|x: Registration| x@) =~= before.map_values(
                            |x: Registration| x@,
                        ).push(reg@));
                        assert(mp.push(p@).map_values(g) =~= mp.map_values(g).push(g(p@)));
                    }
                },
                FieldPlan::Skipped(_) => {},
            }
            i = i + 1;
        }
        proof {
            assert(fv.take(fv.len() as int) =~= fv);
            assert(g =~= (|p: MetricPlanView| registration_of(self@, p, scope@, instance_labels@)));
        }
        out
    }

    /// The descriptions recorded by the derived `describe`: one per metric
    /// field in field order, under the key it is registered with, with its
    /// kind and description. `scope` is read as in `registrations`.
    pub fn descriptions(&self, scope: &str) -> (r: Vec<Description>)
        ensures
            r@.map_values(|x: Description| x@) == descriptions_of(self@, scope@),
    {
        let ghost fv = self@.fields;
        let ghost g = |p: MetricPlanView| description_of(self@, p, scope@);
        let mut out: Vec<Description> = Vec::new();
        let mut i: usize = 0;
        proof {
            assert(fv.take(0) =~= Seq::<FieldPlanView>::empty());
            assert(out@.map_values(|x: Description| x@) =~= Seq::<DescriptionView>::empty());
            assert(metric_plans(fv.take(0)).map_values(g) =~= Seq::<DescriptionView>::empty());
        }
        while i < self.fields.len()
            invariant
                i <= self.fields.len(),
                fv == self@.fields,
                fv.len() == self.fields@.len(),
                g == (|p: MetricPlanView| description_of(self@, p, scope@)),
                out@.map_values(|x: Description| x@) == metric_plans(fv.take(i as int)).map_values(g),
            decreases self.fields.len() - i,
        {
            proof {
                lemma_metric_plans_step(fv, i as int);
                assert(fv[i as int] == self.fields@[i as int]@);
            }
            match &self.fields[i] {
                FieldPlan::Metric(p) => {
                    let d = Description {
                        key: key_of(p, &self.separator, scope),
                        kind: p.kind,
                        description: p.description.clone(),
                    };
                    let ghost before = out@;
                    out.push(d);
                    proof {
                        let mp = metric_plans(fv.take(i as int));
                        assert(out@.map_values(|x: Description| x@) =~= before.map_values(
                            |x: Description| x@,
                        ).push(d@));
                        assert(mp.push(p@).map_values(g) =~= mp.map_values(g).push(g(p@)));
                    }
                },
                FieldPlan::Skipped(_) => {},
            }
            i = i + 1;
        }
        proof {
            assert(fv.take(fv.len() as int) =~= fv);
            assert(g =~= (|p: MetricPlanView| description_of(self@, p, scope@)));
        }
        out
    }
}

} // verus!
