//! A parser for a compact schema-definition language: namespaces with
//! optional versions, and typed property declarations with meta-clauses
//! (default value, numeric range, optionality).
use vstd::prelude::*;

pub mod integer_property;
pub mod laws;
pub mod long_property;
pub mod namespace;
pub mod property;
pub mod render;
pub mod semver;
pub mod text;

use crate::namespace::{parse_namespace_at, spec_namespace, Namespace, NamespaceView};
use crate::text::{skip_any_ws, spec_skip_any_ws};

verus! {

/// The single failure kind of every parser in this crate: an expected
/// token, keyword, or clause was absent at a given position.
#[derive(Debug, PartialEq, Clone)]
pub struct SyntaxError {
    /// A short label naming the construct that was expected.
    pub label: String,
    /// The character position at which the mismatch was found.
    pub position: usize,
}

pub(crate) fn syntax_error(label: &str, position: usize) -> (r: SyntaxError)
    ensures
        r.label@ == label@,
        r.position == position,
{
    SyntaxError { label: label.to_owned(), position }
}

/// The parsed form of a whole source text. Extensible by design; today it
/// holds only the namespace declaration.
#[derive(Debug, PartialEq, Clone)]
pub struct Model {
    pub namespace: Namespace,
}

#[verifier::ext_equal]
pub ghost struct ModelView {
    pub namespace: NamespaceView,
}

impl View for Model {
    type V = ModelView;

    open spec fn view(&self) -> ModelView {
        ModelView { namespace: self.namespace@ }
    }
}

/// The whole input as a model: one namespace declaration, surrounded by
/// whitespace of any kind, then end of input.
pub open spec fn spec_model(s: Seq<char>) -> Option<NamespaceView> {
    let i = spec_skip_any_ws(s, 0);
    match spec_namespace(s, i) {
        None => None,
        Some((ns, j)) => {
            let k = spec_skip_any_ws(s, j);
            if k == s.len() {
                Some(ns)
            } else {
                None
            }
        },
    }
}

/// Parses a full source text into a model. Acceptance is all-or-nothing:
/// text left over after the declarations is a failure, and no partial model
/// is returned.
pub fn parse(input: &str) -> (r: Result<Model, SyntaxError>)
    ensures
        match spec_model(input@) {
            Some(ns) => r matches Ok(m) && m@.namespace == ns,
            None => r is Err,
        },
{
    let i = skip_any_ws(input, 0);
    match parse_namespace_at(input, i) {
        None => Err(syntax_error("namespace declaration", i)),
        Some((ns, j)) => {
            let k = skip_any_ws(input, j);
            if k == input.unicode_len() {
                Ok(Model { namespace: ns })
            } else {
                Err(syntax_error("end of input", k))
            }
        },
    }
}

/// The top-level parser; `ConcertoParser::parse` is the same entry point as
/// the free function `parse`.
pub struct ConcertoParser;

impl ConcertoParser {
    pub fn parse(input: &str) -> (r: Result<Model, SyntaxError>)
        ensures
            match spec_model(input@) {
                Some(ns) => r matches Ok(m) && m@.namespace == ns,
                None => r is Err,
            },
    {
        crate::parse(input)
    }
}

} // verus!
