//! OWL-level declarations.

use vstd::prelude::*;

verus! {

/// The concrete syntaxes an ontology can be written in.
pub enum OwlSyntax {
    Functional,
    Turtle,
    RdfXml,
    OwlXml,
    Manchester,
}

/// Implemented by RDF documents that can be mapped onto OWL.
pub trait RDFDocumentMapperToOwl {
    fn map_to_owl(&self);
}

} // verus!
