//! Streaming, line-oriented reading of Turtle documents into an in-memory
//! structure of namespace declarations and subject-predicate-object statements.
//!
//! A line goes through [`parse_turtle`], which names the role it plays, and
//! then into an [`Accumulator`], which folds it into a [`TurtleDocument`].

pub mod declarations;
pub mod loader;

pub use crate::declarations::owl::{OwlSyntax, RDFDocumentMapperToOwl};
pub use crate::declarations::std_prefix_names::{
    get_owl_prefix, get_rdf_prefix, get_rdfs_prefix, get_xsd_prefix, OwlStdPrefix, PrefixObject,
};
pub use crate::declarations::turtle::{
    StatementKind, TurtleBodyItem, TurtleDocument, TurtleHeaderItem, TurtleObject, TurtlePredicate,
};
pub use crate::loader::load::{load_turtle_lines, Accumulator, Loaded};
pub use crate::loader::parsers::ttl_parser::{classify, parse_turtle};
pub use crate::loader::parsers::{line_ending, ErrorKind, TurtleInput, TurtleParseError};
