//! The vocabulary of the library: OWL syntaxes, the standard prefixes, and the
//! in-memory shape of a Turtle document.

pub mod owl;
pub mod std_prefix_names;
pub mod turtle;
