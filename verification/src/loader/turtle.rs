//! A borrowed shape of a Turtle document, for callers that keep the text of
//! the document and want no copies of it: every piece of text is a slice of
//! what was read.

use vstd::prelude::*;

verus! {

/// One `@prefix` or `@base` declaration.
#[derive(Debug, Clone, PartialEq)]
pub struct TurtleHeaderItem<'a> {
    /// Whether this is the `@base` declaration.
    pub is_base: bool,
    /// The declared prefix, such as `skos`; empty on a base.
    pub prefix_name: &'a str,
    /// The IRI the prefix stands for, such as `<http://www.w3.org/2004/02/skos/core#>`.
    pub prefix_iri: &'a str,
    /// The line as it was read.
    pub raw_header: &'a str,
}

/// One statement: a subject and what is said of it.
#[derive(Debug, Clone, PartialEq)]
pub struct TurtleBodyItem<'a> {
    pub subject: &'a str,
    pub predicate_object: Vec<TurtlePredicateObject<'a>>,
}

/// A predicate together with one object.
#[derive(Debug, Clone, PartialEq)]
pub struct TurtlePredicateObject<'a> {
    /// The pair as it was written.
    pub raw_predicate_object: &'a str,
    /// The predicate, prefixed or an IRI.
    pub predicate: &'a str,
    /// Whether the predicate is an IRI.
    pub predicate_is_url: bool,
    /// The object, prefixed or an IRI.
    pub object: &'a str,
    /// Whether the object is an IRI.
    pub object_is_url: bool,
}

/// A whole document: its declarations and its statements.
#[derive(Debug, Clone, PartialEq)]
pub struct TurtleSignature<'a> {
    pub headers: Vec<TurtleHeaderItem<'a>>,
    pub body: Vec<TurtleBodyItem<'a>>,
}

} // verus!
