//! Verified core of the `Metrics` derive: the rules that read a struct's
//! `#[metrics(..)]` and `#[metric(..)]` attributes, check them, and decide
//! which metrics the derived code registers and describes, under which names,
//! with which labels and descriptions.
//!
//! The derive input is held in the plain model of [`model`]; the decisions
//! come back as an [`expand::Expansion`], from which the code is rendered.

pub mod attrs;
pub mod derived;
pub mod expand;
pub mod laws;
pub mod metric;
pub mod model;
pub mod provenance;
pub mod seqs;
pub mod text;
