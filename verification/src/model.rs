//! The plain model of a derive input, and the diagnostics the derive reports.
//!
//! Each node that a diagnostic can point at carries a `node` number; the
//! front end that builds the model keeps the source span of each number.

use vstd::prelude::*;

verus! {

/// A literal as the derive rules read it.
pub enum Lit {
    /// A string literal, held by its value.
    Str(String),
    /// A boolean literal.
    Bool(bool),
    /// Any other literal (number, byte string, char, ...).
    Other,
}

/// One element of a label tuple: an arbitrary expression, with its literal
/// when it is one, and its source text.
pub struct Leaf {
    pub node: usize,
    pub lit: Option<Lit>,
    pub tokens: String,
}

/// One element of an array expression: `Some` with the elements of a tuple
/// expression, `None` for any other expression.
pub struct ArrayElem {
    pub node: usize,
    pub tuple: Option<Vec<Leaf>>,
}

/// The shape of the value of a `key = value` entry.
pub enum ValueKind {
    /// A literal expression.
    Lit(Lit),
    /// An array expression.
    Array(Vec<ArrayElem>),
    /// Any other expression.
    Other,
}

/// The value of a `key = value` entry.
pub struct Value {
    pub node: usize,
    pub kind: ValueKind,
}

/// A `key = value` entry; `ident` is the key when the key is a single plain
/// identifier.
pub struct NameValue {
    pub node: usize,
    pub ident: Option<String>,
    pub value: Value,
}

/// One entry of a `#[metric(..)]` list.
pub enum Meta {
    /// A bare path such as `skip`.
    Path { node: usize, ident: Option<String> },
    /// A `key = value` entry.
    NameValue(NameValue),
    /// A nested list such as `foo(..)`.
    List { node: usize },
}

/// An outer attribute of the struct or of a field.
///
/// `str_value` is `Some` when the attribute is of the form `#[path = "text"]`
/// (doc comments are), with the literal's value. `name_values` and `metas` are
/// the attribute's parenthesised arguments read as a comma-separated list of
/// `key = value` entries and of general entries respectively, or the node of
/// the syntax error met in reading them.
pub struct Attribute {
    pub node: usize,
    pub ident: Option<String>,
    pub str_value: Option<String>,
    pub name_values: Result<Vec<NameValue>, usize>,
    pub metas: Result<Vec<Meta>, usize>,
}

/// The type of a field; `last_segment` is the identifier of the last path
/// segment when the type is a path with at least one segment.
pub struct FieldType {
    pub node: usize,
    pub last_segment: Option<String>,
}

/// A field of the struct.
pub struct Field {
    pub node: usize,
    pub ident: Option<String>,
    pub ty: FieldType,
    pub attrs: Vec<Attribute>,
}

/// What the derive is applied to.
pub enum Data {
    /// A struct, with its fields in declaration order.
    Struct(Vec<Field>),
    /// An enum or a union.
    Other,
}

/// The item that `#[derive(Metrics)]` is applied to.
pub struct DeriveInput {
    pub node: usize,
    pub ident: String,
    pub attrs: Vec<Attribute>,
    pub data: Data,
}

/// The two attributes that the derive reads.
#[derive(Clone, Copy, Debug, PartialEq, Eq, Structural)]
pub enum AttrName {
    /// `#[metrics(..)]` on the struct.
    Metrics,
    /// `#[metric(..)]` on a field.
    Metric,
}

/// The keys whose repetition is refused with a "duplicate ... value" message.
#[derive(Clone, Copy, Debug, PartialEq, Eq, Structural)]
pub enum EntryKey {
    Labels,
    Scope,
    Separator,
    Describe,
    Rename,
}

/// Why the derive refuses its input.
#[derive(Clone, Copy, Debug, PartialEq, Eq, Structural)]
pub enum Problem {
    DuplicateAttribute(AttrName),
    MissingAttribute(AttrName),
    DuplicateEntry(EntryKey),
    DuplicateDynamic,
    UnsupportedEntry,
    NotLiteral,
    NotStrLiteral,
    NotBoolLiteral,
    ScopeConflictsWithDynamic,
    ScopeOrDynamicRequired,
    OnlyStructs,
    DescriptionRequired,
    LabelsNotArray,
    LabelNotTuple,
    LabelArity,
    UnsupportedMetricType,
    /// The attribute's arguments are not well-formed syntax; the parser's own
    /// message stands for it.
    Syntax,
}

/// A refusal: the problem, and the node it is reported at.
#[derive(Clone, Copy, Debug, PartialEq, Eq, Structural)]
pub struct Diagnostic {
    pub node: usize,
    pub problem: Problem,
}

/// The name of an attribute as written in source.
pub open spec fn attr_name_text(a: AttrName) -> Seq<char> {
    match a {
        AttrName::Metrics => "metrics"@,
        AttrName::Metric => "metric"@,
    }
}

/// The text of an attribute name.
pub fn attr_name_str(a: AttrName) -> (r: &'static str)
    ensures
        r@ == attr_name_text(a),
{
    match a {
        AttrName::Metrics => "metrics",
        AttrName::Metric => "metric",
    }
}

/// The message reported for a problem.
pub open spec fn problem_text(p: Problem) -> Seq<char> {
    match p {
        Problem::DuplicateAttribute(AttrName::Metrics) => "duplicate `#[metrics(..)]` attribute provided"@,
        Problem::DuplicateAttribute(AttrName::Metric) => "duplicate `#[metric(..)]` attribute provided"@,
        Problem::MissingAttribute(AttrName::Metrics) => "`#[metrics(..)]` attribute must be provided"@,
        Problem::MissingAttribute(AttrName::Metric) => "`#[metric(..)]` attribute must be provided"@,
        Problem::DuplicateEntry(EntryKey::Labels) => "duplicate `labels` value provided"@,
        Problem::DuplicateEntry(EntryKey::Scope) => "duplicate `scope` value provided"@,
        Problem::DuplicateEntry(EntryKey::Separator) => "duplicate `separator` value provided"@,
        Problem::DuplicateEntry(EntryKey::Describe) => "duplicate `describe` value provided"@,
        Problem::DuplicateEntry(EntryKey::Rename) => "duplicate `rename` value provided"@,
        Problem::DuplicateDynamic => "duplicate `dynamic` flag provided"@,
        Problem::UnsupportedEntry => "unsupported attribute entry"@,
        Problem::NotLiteral => "value must be a literal"@,
        Problem::NotStrLiteral => "value must be a string literal"@,
        Problem::NotBoolLiteral => "value must be a boolean literal"@,
        Problem::ScopeConflictsWithDynamic => "`scope = ..` conflicts with `dynamic = true`"@,
        Problem::ScopeOrDynamicRequired => "either `scope = ..` or `dynamic = true` must be set"@,
        Problem::OnlyStructs => "only structs are supported"@,
        Problem::DescriptionRequired => "either doc comment or `describe = ..` must be set"@,
        Problem::LabelsNotArray => "labels must be an array of tuples, e.g. `labels = [(\"key\", \"value\")]`"@,
        Problem::LabelNotTuple => "each label must be a tuple, e.g. `(\"key\", \"value\")` or `(\"key\", CONST)`"@,
        Problem::LabelArity => "each label tuple must have exactly two elements: (key, value)"@,
        Problem::UnsupportedMetricType => "unsupported metric type"@,
        Problem::Syntax => "malformed attribute arguments"@,
    }
}

impl Problem {
    /// The message reported for this problem.
    pub fn message(&self) -> (r: String)
        ensures
            r@ == problem_text(*self),
    {
        let s: &str = match self {
            Problem::DuplicateAttribute(AttrName::Metrics) => "duplicate `#[metrics(..)]` attribute provided",
            Problem::DuplicateAttribute(AttrName::Metric) => "duplicate `#[metric(..)]` attribute provided",
            Problem::MissingAttribute(AttrName::Metrics) => "`#[metrics(..)]` attribute must be provided",
            Problem::MissingAttribute(AttrName::Metric) => "`#[metric(..)]` attribute must be provided",
            Problem::DuplicateEntry(EntryKey::Labels) => "duplicate `labels` value provided",
            Problem::DuplicateEntry(EntryKey::Scope) => "duplicate `scope` value provided",
            Problem::DuplicateEntry(EntryKey::Separator) => "duplicate `separator` value provided",
            Problem::DuplicateEntry(EntryKey::Describe) => "duplicate `describe` value provided",
            Problem::DuplicateEntry(EntryKey::Rename) => "duplicate `rename` value provided",
            Problem::DuplicateDynamic => "duplicate `dynamic` flag provided",
            Problem::UnsupportedEntry => "unsupported attribute entry",
            Problem::NotLiteral => "value must be a literal",
            Problem::NotStrLiteral => "value must be a string literal",
            Problem::NotBoolLiteral => "value must be a boolean literal",
            Problem::ScopeConflictsWithDynamic => "`scope = ..` conflicts with `dynamic = true`",
            Problem::ScopeOrDynamicRequired => "either `scope = ..` or `dynamic = true` must be set",
            Problem::OnlyStructs => "only structs are supported",
            Problem::DescriptionRequired => "either doc comment or `describe = ..` must be set",
            Problem::LabelsNotArray => "labels must be an array of tuples, e.g. `labels = [(\"key\", \"value\")]`",
            Problem::LabelNotTuple => "each label must be a tuple, e.g. `(\"key\", \"value\")` or `(\"key\", CONST)`",
            Problem::LabelArity => "each label tuple must have exactly two elements: (key, value)",
            Problem::UnsupportedMetricType => "unsupported metric type",
            Problem::Syntax => "malformed attribute arguments",
        };
        String::from_str(s)
    }
}

/// The value of a label: a text, or an expression given by its source text
/// and evaluated by the derived code.
pub enum LabelValue {
    Text(String),
    Expr(String),
}

/// A label: a key and a value.
pub struct LabelPair {
    pub key: String,
    pub value: LabelValue,
}

/// A copy of a label.
pub fn copy_label(l: &LabelPair) -> (r: LabelPair)
    ensures
        r == *l,
{
    let value = match &l.value {
        LabelValue::Text(t) => LabelValue::Text(t.clone()),
        LabelValue::Expr(t) => LabelValue::Expr(t.clone()),
    };
    LabelPair { key: l.key.clone(), value }
}

/// A copy of a list of labels.
pub fn copy_labels(v: &Vec<LabelPair>) -> (r: Vec<LabelPair>)
    ensures
        r@ == v@,
{
    let mut r: Vec<LabelPair> = Vec::new();
    let mut i: usize = 0;
    while i < v.len()
        invariant
            i <= v.len(),
            r@ =~= v@.take(i as int),
        decreases v.len() - i,
    {
        r.push(copy_label(&v[i]));
        i = i + 1;
    }
    proof {
        assert(v@.take(v.len() as int) =~= v@);
    }
    r
}

/// A copy of an optional text.
pub fn copy_opt(s: &Option<String>) -> (r: Option<String>)
    ensures
        r == *s,
{
    match s {
        Some(t) => Some(t.clone()),
        None => None,
    }
}

/// Whether an optional identifier is present and spells `name`.
pub open spec fn ident_is(ident: Option<String>, name: Seq<char>) -> bool {
    match ident {
        Some(i) => i@ == name,
        None => false,
    }
}

/// Tests `ident_is`.
pub fn check_ident(ident: &Option<String>, name: &str) -> (r: bool)
    ensures
        r == ident_is(*ident, name@),
{
    match ident {
        Some(i) => crate::text::same_text(i, name),
        None => false,
    }
}

} // verus!
