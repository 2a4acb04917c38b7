//! Reading Turtle text: line parsers and the assembler that folds classified
//! lines into a document.

pub mod load;
pub mod parsers;
pub mod text;
pub mod turtle;
