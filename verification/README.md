# metrics-derive

The rules of the `Metrics` derive, verified with Verus.

`#[derive(Metrics)]` instruments the fields of a struct as `metrics` counters,
gauges and histograms. The struct carries `#[metrics(scope = "..")]` or
`#[metrics(dynamic = true)]` (with an optional `separator` and struct-level
`labels`), and each field may carry `#[metric(skip)]`, `rename`, `describe`
and field-level `labels`; a field without `describe` is described by its doc
comments.

Layout:

- `src/model.rs` – the plain model of a derive input, and the diagnostics.
- `src/attrs.rs` – locating attributes, doc comments, literals, label lists.
- `src/metric.rs` – a metric field's name and its recorder methods.
- `src/expand.rs` – reading the struct and its fields, and the expansion plan.
- `src/derived.rs` – what the derived constructors register and what
  `describe` records.
- `src/laws.rs` – properties of the derive as a whole.
- `src/text.rs`, `src/seqs.rs` – text and sequence helpers.
- `app/lib.rs` – the front end: `syn` input to the model, the plan back to
  code with `quote`.
