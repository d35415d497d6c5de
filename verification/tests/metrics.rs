// The scenarios of the derive's own test suite, run on the derive's decisions:
// each struct is written as the model the front end hands over, expanded, and
// what the derived code registers and describes is recorded by a test
// recorder that keeps the last entry per metric key.

use metrics::Label;
use metrics_derive::derived::{Description, Registration};
use metrics_derive::expand::Expansion;
use metrics_derive::metric::MetricKind;
use metrics_derive::model::{
    ArrayElem, Attribute, Data, DeriveInput, Field, FieldType, LabelPair, LabelValue, Leaf, Lit, Meta,
    NameValue, Value, ValueKind,
};
use std::collections::HashMap;

const SERVICE_NAME: &str = "gateway";
const API_VERSION: &str = "v2";

struct Ids {
    next: std::cell::Cell<usize>,
}

impl Ids {
    fn new() -> Self {
        Ids { next: std::cell::Cell::new(1) }
    }

    fn id(&self) -> usize {
        self.next.set(self.next.get() + 1);
        self.next.get()
    }
}

#[derive(Clone)]
enum LabelArg {
    Text(&'static str),
    Const(&'static str),
}

fn str_value(ids: &Ids, s: &str) -> Value {
    Value { node: ids.id(), kind: ValueKind::Lit(Lit::Str(s.to_string())) }
}

fn bool_value(ids: &Ids, b: bool) -> Value {
    Value { node: ids.id(), kind: ValueKind::Lit(Lit::Bool(b)) }
}

fn labels_value(ids: &Ids, pairs: &[(&str, LabelArg)]) -> Value {
    let mut elems = Vec::new();
    for (k, v) in pairs {
        let key = Leaf {
            node: ids.id(),
            lit: Some(Lit::Str(k.to_string())),
            tokens: format!("{:?}", k),
        };
        let value = match v {
            LabelArg::Text(t) => Leaf { node: ids.id(), lit: Some(Lit::Str(t.to_string())), tokens: format!("{:?}", t) },
            LabelArg::Const(c) => Leaf { node: ids.id(), lit: None, tokens: c.to_string() },
        };
        elems.push(ArrayElem { node: ids.id(), tuple: Some(vec![key, value]) });
    }
    Value { node: ids.id(), kind: ValueKind::Array(elems) }
}

fn entry(ids: &Ids, key: &str, value: Value) -> NameValue {
    NameValue { node: ids.id(), ident: Some(key.to_string()), value }
}

fn copy_value(v: &Value) -> Value {
    let kind = match &v.kind {
        ValueKind::Lit(Lit::Str(s)) => ValueKind::Lit(Lit::Str(s.clone())),
        ValueKind::Lit(Lit::Bool(b)) => ValueKind::Lit(Lit::Bool(*b)),
        ValueKind::Lit(Lit::Other) => ValueKind::Lit(Lit::Other),
        ValueKind::Other => ValueKind::Other,
        ValueKind::Array(elems) => ValueKind::Array(
            elems
                .iter()
                .map(|e| ArrayElem {
                    node: e.node,
                    tuple: e.tuple.as_ref().map(|t| {
                        t.iter()
                            .map(|l| Leaf {
                                node: l.node,
                                lit: match &l.lit {
                                    Some(Lit::Str(s)) => Some(Lit::Str(s.clone())),
                                    Some(Lit::Bool(b)) => Some(Lit::Bool(*b)),
                                    Some(Lit::Other) => Some(Lit::Other),
                                    None => None,
                                },
                                tokens: l.tokens.clone(),
                            })
                            .collect()
                    }),
                })
                .collect(),
        ),
    };
    Value { node: v.node, kind }
}

/// A list attribute whose entries are all `key = value`.
fn list_attr(ids: &Ids, name: &str, entries: Vec<NameValue>) -> Attribute {
    let metas = entries
        .iter()
        .map(|kv| {
            Meta::NameValue(NameValue { node: kv.node, ident: kv.ident.clone(), value: copy_value(&kv.value) })
        })
        .collect();
    Attribute { node: ids.id(), ident: Some(name.to_string()), str_value: None, name_values: Ok(entries), metas: Ok(metas) }
}

/// `#[metric(skip)]`.
fn skip_attr(ids: &Ids) -> Attribute {
    let n = ids.id();
    Attribute {
        node: ids.id(),
        ident: Some("metric".to_string()),
        str_value: None,
        name_values: Err(n),
        metas: Ok(vec![Meta::Path { node: n, ident: Some("skip".to_string()) }]),
    }
}

/// `/// text`, that is `#[doc = " text"]`.
fn doc(ids: &Ids, text: &str) -> Attribute {
    let n = ids.id();
    Attribute {
        node: n,
        ident: Some("doc".to_string()),
        str_value: Some(format!(" {}", text)),
        name_values: Err(n),
        metas: Err(n),
    }
}

fn field(ids: &Ids, name: &str, ty: &str, attrs: Vec<Attribute>) -> Field {
    Field {
        node: ids.id(),
        ident: Some(name.to_string()),
        ty: FieldType { node: ids.id(), last_segment: Some(ty.to_string()) },
        attrs,
    }
}

fn input(ids: &Ids, name: &str, attrs: Vec<Attribute>, fields: Vec<Field>) -> DeriveInput {
    DeriveInput { node: ids.id(), ident: name.to_string(), attrs, data: Data::Struct(fields) }
}

fn expand(node: &DeriveInput) -> Expansion {
    match metrics_derive::expand::derive(node) {
        Ok(e) => e,
        Err(d) => panic!("derive refused the input: {:?}", d),
    }
}

/// The fields of `CustomMetrics` and `DynamicScopeMetrics`.
fn custom_fields(ids: &Ids) -> Vec<Field> {
    let a = skip_attr(ids);
    let f_a = field(ids, "skipped_field_a", "u8", vec![a]);
    let d = doc(ids, "A gauge with doc comment description.");
    let f_gauge = field(ids, "gauge", "Gauge", vec![d]);
    let rename = entry(ids, "rename", str_value(ids, "second_gauge"));
    let describe = entry(ids, "describe", str_value(ids, "A gauge with metric attribute description."));
    let m = list_attr(ids, "metric", vec![rename, describe]);
    let f_gauge2 = field(ids, "gauge2", "Gauge", vec![m]);
    let b = skip_attr(ids);
    let f_b = field(ids, "skipped_field_b", "u16", vec![b]);
    let d = doc(ids, "Some doc comment");
    let describe = entry(
        ids,
        "describe",
        str_value(ids, "Metric attribute description will be preferred over doc comment."),
    );
    let m = list_attr(ids, "metric", vec![describe]);
    let f_counter = field(ids, "counter", "Counter", vec![d, m]);
    let c = skip_attr(ids);
    let f_c = field(ids, "skipped_field_c", "u32", vec![c]);
    let dd = skip_attr(ids);
    let f_d = field(ids, "skipped_field_d", "u64", vec![dd]);
    let d = doc(ids, "A renamed histogram.");
    let rename = entry(ids, "rename", str_value(ids, "histogram"));
    let m = list_attr(ids, "metric", vec![rename]);
    let f_histo = field(ids, "histo", "Histogram", vec![d, m]);
    let e = skip_attr(ids);
    let f_e = field(ids, "skipped_field_e", "u128", vec![e]);
    vec![f_a, f_gauge, f_gauge2, f_b, f_counter, f_c, f_d, f_histo, f_e]
}

/// `#[metrics(scope = "metrics_custom")] struct CustomMetrics`.
fn custom_metrics() -> DeriveInput {
    let ids = Ids::new();
    let scope = entry(&ids, "scope", str_value(&ids, "metrics_custom"));
    let attr = list_attr(&ids, "metrics", vec![scope]);
    let fields = custom_fields(&ids);
    input(&ids, "CustomMetrics", vec![attr], fields)
}

/// `#[metrics(dynamic = true)] struct DynamicScopeMetrics`.
fn dynamic_scope_metrics() -> DeriveInput {
    let ids = Ids::new();
    let dynamic = entry(&ids, "dynamic", bool_value(&ids, true));
    let attr = list_attr(&ids, "metrics", vec![dynamic]);
    let fields = custom_fields(&ids);
    input(&ids, "DynamicScopeMetrics", vec![attr], fields)
}

/// The `transactions.count` fields with per-field labels.
fn transaction_fields(ids: &Ids, with_processed: bool) -> Vec<Field> {
    let mut out = Vec::new();
    let mut specs = vec![
        ("forwarded", vec![("outcome", LabelArg::Text("forwarded"))]),
        ("dropped", vec![("outcome", LabelArg::Text("dropped"))]),
    ];
    if with_processed {
        specs.push((
            "processed_high",
            vec![("outcome", LabelArg::Text("processed")), ("priority", LabelArg::Text("high"))],
        ));
    }
    for (name, labels) in specs {
        let d = doc(ids, "Number of transactions.");
        let rename = entry(ids, "rename", str_value(ids, "count"));
        let lv = labels_value(ids, &labels);
        let l = entry(ids, "labels", lv);
        let m = list_attr(ids, "metric", vec![rename, l]);
        out.push(field(ids, name, "Counter", vec![d, m]));
    }
    out
}

fn field_label_metrics() -> DeriveInput {
    let ids = Ids::new();
    let scope = entry(&ids, "scope", str_value(&ids, "transactions"));
    let attr = list_attr(&ids, "metrics", vec![scope]);
    let fields = transaction_fields(&ids, true);
    input(&ids, "FieldLabelMetrics", vec![attr], fields)
}

fn dynamic_field_label_metrics() -> DeriveInput {
    let ids = Ids::new();
    let dynamic = entry(&ids, "dynamic", bool_value(&ids, true));
    let attr = list_attr(&ids, "metrics", vec![dynamic]);
    let fields = transaction_fields(&ids, false);
    input(&ids, "DynamicFieldLabelMetrics", vec![attr], fields)
}

fn global_label_metrics() -> DeriveInput {
    let ids = Ids::new();
    let scope = entry(&ids, "scope", str_value(&ids, "global_test"));
    let lv = labels_value(&ids, &[("service", LabelArg::Text("api")), ("version", LabelArg::Text("v1"))]);
    let labels = entry(&ids, "labels", lv);
    let attr = list_attr(&ids, "metrics", vec![scope, labels]);
    let d = doc(&ids, "A counter.");
    let requests = field(&ids, "requests", "Counter", vec![d]);
    let d = doc(&ids, "A counter with field-level labels too.");
    let lv = labels_value(&ids, &[("method", LabelArg::Text("GET"))]);
    let l = entry(&ids, "labels", lv);
    let m = list_attr(&ids, "metric", vec![l]);
    let get_requests = field(&ids, "get_requests", "Counter", vec![d, m]);
    input(&ids, "GlobalLabelMetrics", vec![attr], vec![requests, get_requests])
}

fn dynamic_global_label_metrics() -> DeriveInput {
    let ids = Ids::new();
    let dynamic = entry(&ids, "dynamic", bool_value(&ids, true));
    let lv = labels_value(&ids, &[("env", LabelArg::Text("prod"))]);
    let labels = entry(&ids, "labels", lv);
    let attr = list_attr(&ids, "metrics", vec![dynamic, labels]);
    let d = doc(&ids, "A counter.");
    let requests = field(&ids, "requests", "Counter", vec![d]);
    input(&ids, "DynamicGlobalLabelMetrics", vec![attr], vec![requests])
}

fn const_label_metrics() -> DeriveInput {
    let ids = Ids::new();
    let scope = entry(&ids, "scope", str_value(&ids, "const_test"));
    let lv = labels_value(&ids, &[("service", LabelArg::Const("SERVICE_NAME"))]);
    let labels = entry(&ids, "labels", lv);
    let attr = list_attr(&ids, "metrics", vec![scope, labels]);
    let d = doc(&ids, "A counter with a constant label value.");
    let lv = labels_value(&ids, &[("version", LabelArg::Const("API_VERSION"))]);
    let l = entry(&ids, "labels", lv);
    let m = list_attr(&ids, "metric", vec![l]);
    let requests = field(&ids, "requests", "Counter", vec![d, m]);
    let d = doc(&ids, "A counter mixing literals and constants.");
    let lv = labels_value(
        &ids,
        &[("method", LabelArg::Text("GET")), ("version", LabelArg::Const("API_VERSION"))],
    );
    let l = entry(&ids, "labels", lv);
    let m = list_attr(&ids, "metric", vec![l]);
    let get_requests = field(&ids, "get_requests", "Counter", vec![d, m]);
    input(&ids, "ConstLabelMetrics", vec![attr], vec![requests, get_requests])
}

fn dynamic_const_label_metrics() -> DeriveInput {
    let ids = Ids::new();
    let dynamic = entry(&ids, "dynamic", bool_value(&ids, true));
    let lv = labels_value(&ids, &[("service", LabelArg::Const("SERVICE_NAME"))]);
    let labels = entry(&ids, "labels", lv);
    let attr = list_attr(&ids, "metrics", vec![dynamic, labels]);
    let d = doc(&ids, "A counter.");
    let requests = field(&ids, "requests", "Counter", vec![d]);
    input(&ids, "DynamicConstLabelMetrics", vec![attr], vec![requests])
}

#[derive(PartialEq, Clone, Debug)]
enum TestMetricTy {
    Counter,
    Gauge,
    Histogram,
}

#[derive(PartialEq, Clone, Debug)]
struct TestMetric {
    ty: TestMetricTy,
    description: Option<String>,
    labels: Option<Vec<Label>>,
}

/// Keeps, per metric key, the last registration or description it saw.
struct TestRecorder {
    metrics: HashMap<String, TestMetric>,
}

fn ty_of(kind: MetricKind) -> TestMetricTy {
    match kind {
        MetricKind::Counter => TestMetricTy::Counter,
        MetricKind::Gauge => TestMetricTy::Gauge,
        MetricKind::Histogram => TestMetricTy::Histogram,
    }
}

/// The value the derived code computes for a label value expression.
fn evaluate(value: &LabelValue) -> String {
    match value {
        LabelValue::Text(t) => t.clone(),
        LabelValue::Expr(e) => match e.as_str() {
            "SERVICE_NAME" => SERVICE_NAME.to_string(),
            "API_VERSION" => API_VERSION.to_string(),
            other => panic!("unknown expression {}", other),
        },
    }
}

fn instance(pairs: &[(&str, &str)]) -> Vec<LabelPair> {
    pairs
        .iter()
        .map(|(k, v)| LabelPair { key: k.to_string(), value: LabelValue::Text(v.to_string()) })
        .collect()
}

impl TestRecorder {
    fn new() -> Self {
        TestRecorder { metrics: HashMap::new() }
    }

    fn describe(&mut self, descriptions: Vec<Description>) {
        for d in descriptions {
            self.metrics.insert(
                d.key.clone(),
                TestMetric { ty: ty_of(d.kind), description: Some(d.description.clone()), labels: None },
            );
        }
    }

    fn register(&mut self, registrations: Vec<Registration>) {
        for r in registrations {
            let labels_vec: Vec<Label> =
                r.labels.iter().map(|l| Label::new(l.key.clone(), evaluate(&l.value))).collect();
            let labels = (!labels_vec.is_empty()).then_some(labels_vec);
            self.metrics.insert(r.key.clone(), TestMetric { ty: ty_of(r.kind), description: None, labels });
        }
    }

    fn metrics_len(&self) -> usize {
        self.metrics.len()
    }

    fn get_metric(&self, key: &str) -> Option<TestMetric> {
        self.metrics.get(key).cloned()
    }
}

fn test_describe(recorder: &TestRecorder, scope: &str) {
    assert_eq!(recorder.metrics_len(), 4);

    let gauge = recorder.get_metric(&format!("{scope}.gauge"));
    assert!(gauge.is_some());
    assert_eq!(
        gauge.unwrap(),
        TestMetric {
            ty: TestMetricTy::Gauge,
            description: Some("A gauge with doc comment description.".to_owned()),
            labels: None,
        }
    );

    let second_gauge = recorder.get_metric(&format!("{scope}.second_gauge"));
    assert!(second_gauge.is_some());
    assert_eq!(
        second_gauge.unwrap(),
        TestMetric {
            ty: TestMetricTy::Gauge,
            description: Some("A gauge with metric attribute description.".to_owned()),
            labels: None,
        }
    );

    let counter = recorder.get_metric(&format!("{scope}.counter"));
    assert!(counter.is_some());
    assert_eq!(
        counter.unwrap(),
        TestMetric {
            ty: TestMetricTy::Counter,
            description: Some("Metric attribute description will be preferred over doc comment.".to_owned()),
            labels: None,
        }
    );

    let histogram = recorder.get_metric(&format!("{scope}.histogram"));
    assert!(histogram.is_some());
    assert_eq!(
        histogram.unwrap(),
        TestMetric {
            ty: TestMetricTy::Histogram,
            description: Some("A renamed histogram.".to_owned()),
            labels: None,
        }
    );
}

#[test]
fn describe_metrics() {
    let mut recorder = TestRecorder::new();
    let metrics = expand(&custom_metrics());

    recorder.describe(metrics.descriptions(""));

    test_describe(&recorder, "metrics_custom");
}

#[test]
fn describe_dynamic_metrics() {
    let mut recorder = TestRecorder::new();
    let scope = "local_scope";
    let metrics = expand(&dynamic_scope_metrics());

    recorder.describe(metrics.descriptions(scope));

    test_describe(&recorder, scope);
}

fn test_register(recorder: &TestRecorder, scope: &str) {
    assert_eq!(recorder.metrics_len(), 4);

    let gauge = recorder.get_metric(&format!("{scope}.gauge"));
    assert!(gauge.is_some());
    assert_eq!(gauge.unwrap(), TestMetric { ty: TestMetricTy::Gauge, description: None, labels: None });

    let second_gauge = recorder.get_metric(&format!("{scope}.second_gauge"));
    assert!(second_gauge.is_some());
    assert_eq!(second_gauge.unwrap(), TestMetric { ty: TestMetricTy::Gauge, description: None, labels: None });

    let counter = recorder.get_metric(&format!("{scope}.counter"));
    assert!(counter.is_some());
    assert_eq!(counter.unwrap(), TestMetric { ty: TestMetricTy::Counter, description: None, labels: None });

    let histogram = recorder.get_metric(&format!("{scope}.histogram"));
    assert!(histogram.is_some());
    assert_eq!(
        histogram.unwrap(),
        TestMetric { ty: TestMetricTy::Histogram, description: None, labels: None }
    );
}

#[test]
fn register_metrics() {
    let mut recorder = TestRecorder::new();
    let metrics = expand(&custom_metrics());

    // `CustomMetrics::default()`: no instance labels.
    recorder.register(metrics.registrations("", &Vec::new()));

    test_register(&recorder, "metrics_custom");
}

#[test]
fn register_dynamic_metrics() {
    let mut recorder = TestRecorder::new();
    let scope = "local_scope";
    let metrics = expand(&dynamic_scope_metrics());

    // `DynamicScopeMetrics::new(scope)`.
    recorder.register(metrics.registrations(scope, &Vec::new()));

    test_register(&recorder, scope);
}

fn test_labels(recorder: &TestRecorder, scope: &str) {
    let test_labels = vec![Label::new("key", "value")];

    let gauge = recorder.get_metric(&format!("{scope}.gauge"));
    assert!(gauge.is_some());
    let labels = gauge.unwrap().labels;
    assert!(labels.is_some());
    assert_eq!(labels.unwrap(), test_labels,);

    let second_gauge = recorder.get_metric(&format!("{scope}.second_gauge"));
    assert!(second_gauge.is_some());
    let labels = second_gauge.unwrap().labels;
    assert!(labels.is_some());
    assert_eq!(labels.unwrap(), test_labels,);

    let counter = recorder.get_metric(&format!("{scope}.counter"));
    assert!(counter.is_some());
    let labels = counter.unwrap().labels;
    assert!(labels.is_some());
    assert_eq!(labels.unwrap(), test_labels,);

    let histogram = recorder.get_metric(&format!("{scope}.histogram"));
    assert!(histogram.is_some());
    let labels = histogram.unwrap().labels;
    assert!(labels.is_some());
    assert_eq!(labels.unwrap(), test_labels,);
}

#[test]
fn label_metrics() {
    let mut recorder = TestRecorder::new();
    let metrics = expand(&custom_metrics());

    recorder.register(metrics.registrations("", &instance(&[("key", "value")])));

    test_labels(&recorder, "metrics_custom");
}

#[test]
fn dynamic_label_metrics() {
    let mut recorder = TestRecorder::new();
    let scope = "local_scope";
    let metrics = expand(&dynamic_scope_metrics());

    recorder.register(metrics.registrations(scope, &instance(&[("key", "value")])));

    test_labels(&recorder, scope);
}

#[test]
fn field_labels_static() {
    let mut recorder = TestRecorder::new();
    let metrics = expand(&field_label_metrics());

    recorder.register(metrics.registrations("", &instance(&[("env", "prod")])));

    // "forwarded" field: struct labels + field labels
    let forwarded = recorder.get_metric("transactions.count");
    assert!(forwarded.is_some());
    let metric = forwarded.unwrap();
    assert_eq!(metric.ty, TestMetricTy::Counter);
    // The last one registered is stored (processed_high with 3 labels).
    let labels = metric.labels.unwrap();
    assert_eq!(labels.len(), 3);
    assert!(labels.contains(&Label::new("env", "prod")));
    assert!(labels.contains(&Label::new("outcome", "processed")));
    assert!(labels.contains(&Label::new("priority", "high")));
}

#[test]
fn field_labels_dynamic() {
    let mut recorder = TestRecorder::new();
    let scope = "dynamic_tx";
    let metrics = expand(&dynamic_field_label_metrics());

    recorder.register(metrics.registrations(scope, &instance(&[("env", "staging")])));

    // Check that field labels are appended to struct labels
    let metric = recorder.get_metric(&format!("{scope}.count"));
    assert!(metric.is_some());
    let metric = metric.unwrap();
    assert_eq!(metric.ty, TestMetricTy::Counter);
    // Last registered is "dropped": env=staging, outcome=dropped
    let labels = metric.labels.unwrap();
    assert_eq!(labels.len(), 2);
    assert!(labels.contains(&Label::new("env", "staging")));
    assert!(labels.contains(&Label::new("outcome", "dropped")));
}

#[test]
fn global_labels_static() {
    let mut recorder = TestRecorder::new();
    let metrics = expand(&global_label_metrics());

    recorder.register(metrics.registrations("", &Vec::new()));

    // Check "requests" has global labels only
    let metric = recorder.get_metric("global_test.requests");
    assert!(metric.is_some());
    let metric = metric.unwrap();
    assert_eq!(metric.ty, TestMetricTy::Counter);
    let labels = metric.labels.unwrap();
    assert_eq!(labels.len(), 2);
    assert!(labels.contains(&Label::new("service", "api")));
    assert!(labels.contains(&Label::new("version", "v1")));
}

#[test]
fn global_labels_with_field_labels() {
    let mut recorder = TestRecorder::new();
    let metrics = expand(&global_label_metrics());

    recorder.register(metrics.registrations("", &Vec::new()));

    // Check "get_requests" has global labels + field labels
    let metric = recorder.get_metric("global_test.get_requests");
    assert!(metric.is_some());
    let metric = metric.unwrap();
    assert_eq!(metric.ty, TestMetricTy::Counter);
    let labels = metric.labels.unwrap();
    // Global: service=api, version=v1; Field: method=GET
    assert_eq!(labels.len(), 3);
    assert!(labels.contains(&Label::new("service", "api")));
    assert!(labels.contains(&Label::new("version", "v1")));
    assert!(labels.contains(&Label::new("method", "GET")));
}

#[test]
fn global_labels_dynamic() {
    let mut recorder = TestRecorder::new();
    let metrics = expand(&dynamic_global_label_metrics());

    recorder.register(metrics.registrations("dyn", &Vec::new()));

    let metric = recorder.get_metric("dyn.requests");
    assert!(metric.is_some());
    let metric = metric.unwrap();
    assert_eq!(metric.ty, TestMetricTy::Counter);
    let labels = metric.labels.unwrap();
    assert_eq!(labels.len(), 1);
    assert!(labels.contains(&Label::new("env", "prod")));
}

#[test]
fn global_labels_with_new_with_labels() {
    let mut recorder = TestRecorder::new();
    let metrics = expand(&global_label_metrics());

    // Instance labels + global labels should combine
    recorder.register(metrics.registrations("", &instance(&[("instance", "i-123")])));

    let metric = recorder.get_metric("global_test.requests");
    assert!(metric.is_some());
    let metric = metric.unwrap();
    let labels = metric.labels.unwrap();
    // Instance: instance=i-123; Global: service=api, version=v1
    assert_eq!(labels.len(), 3);
    assert!(labels.contains(&Label::new("instance", "i-123")));
    assert!(labels.contains(&Label::new("service", "api")));
    assert!(labels.contains(&Label::new("version", "v1")));
}

#[test]
fn const_labels_static() {
    let mut recorder = TestRecorder::new();
    let metrics = expand(&const_label_metrics());

    recorder.register(metrics.registrations("", &Vec::new()));

    // Check "requests" has global label (service=gateway) + field label (version=v2)
    let metric = recorder.get_metric("const_test.requests");
    assert!(metric.is_some());
    let metric = metric.unwrap();
    assert_eq!(metric.ty, TestMetricTy::Counter);
    let labels = metric.labels.unwrap();
    assert_eq!(labels.len(), 2);
    assert!(labels.contains(&Label::new("service", SERVICE_NAME)));
    assert!(labels.contains(&Label::new("version", API_VERSION)));
}

#[test]
fn const_labels_mixed() {
    let mut recorder = TestRecorder::new();
    let metrics = expand(&const_label_metrics());

    recorder.register(metrics.registrations("", &Vec::new()));

    // Check "get_requests" has global + mixed field labels
    let metric = recorder.get_metric("const_test.get_requests");
    assert!(metric.is_some());
    let metric = metric.unwrap();
    let labels = metric.labels.unwrap();
    // Global: service=gateway; Field: method=GET, version=v2
    assert_eq!(labels.len(), 3);
    assert!(labels.contains(&Label::new("service", SERVICE_NAME)));
    assert!(labels.contains(&Label::new("method", "GET")));
    assert!(labels.contains(&Label::new("version", API_VERSION)));
}

#[test]
fn const_labels_dynamic() {
    let mut recorder = TestRecorder::new();
    let metrics = expand(&dynamic_const_label_metrics());

    recorder.register(metrics.registrations("dyn_const", &Vec::new()));

    let metric = recorder.get_metric("dyn_const.requests");
    assert!(metric.is_some());
    let metric = metric.unwrap();
    let labels = metric.labels.unwrap();
    assert_eq!(labels.len(), 1);
    assert!(labels.contains(&Label::new("service", SERVICE_NAME)));
}
