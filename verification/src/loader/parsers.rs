//! Parsers for the serialisations the loader reads, and the error and input
//! vocabulary they share.

use vstd::prelude::*;
use vstd::string::*;

pub mod ttl_parser;

verus! {

/// Why a parser turned its input down.
#[derive(Debug, Clone, Copy, PartialEq, Eq, Structural)]
pub enum ErrorKind {
    /// The input does not begin with the expected keyword.
    Tag,
    /// The input does not begin with the expected character.
    Char,
    /// The input is not of the shape the parser recognises.
    IsNot,
}

/// A parser's refusal: the input it was given and the reason.
#[derive(Debug, Clone, PartialEq)]
pub struct TurtleParseError {
    pub input: String,
    pub kind: ErrorKind,
}

impl TurtleParseError {
    pub fn from_error_kind(input: &str, kind: ErrorKind) -> (e: TurtleParseError)
        ensures
            e.input@ == input@,
            e.kind == kind,
    {
        TurtleParseError { input: String::from_str(input), kind }
    }
}

/// `r` is the refusal of `input` for the reason `kind`.
pub open spec fn refused<T>(
    r: Result<T, TurtleParseError>,
    input: Seq<char>,
    kind: ErrorKind,
) -> bool {
    r matches Err(e) && e.input@ =~= input && e.kind == kind
}

/// `r` is a success that leaves `rest` unread and yields `output`.
pub open spec fn parsed(
    r: Result<(&str, &str), TurtleParseError>,
    rest: Seq<char>,
    output: Seq<char>,
) -> bool {
    r matches Ok(p) && p.0@ =~= rest && p.1@ =~= output
}

/// Input that can be cut in two at a character position.
pub trait TurtleInput: Sized + View<V = Seq<char>> {
    /// The first `count` characters, and the input from there on.
    fn take_right(&self, count: usize) -> (parts: (Self, Self))
        requires
            count <= self@.len(),
        ensures
            parts.0@ == self@.take(count as int),
            parts.1@ == self@.skip(count as int),
    ;
}

impl<'a> TurtleInput for &'a str {
    fn take_right(&self, count: usize) -> (parts: (Self, Self)) {
        let n: usize = self.unicode_len();
        (self.substring_char(0, count), self.substring_char(count, n))
    }
}

/// Accepts a line that ends a statement: one whose last character is `.` with
/// a space right before it. The whole line is the output and nothing is left.
pub fn line_ending(i: &str) -> (r: Result<(&str, &str), TurtleParseError>)
    ensures
        if ttl_parser::ends_statement(i@) {
            parsed(r, Seq::empty(), i@)
        } else {
            refused(r, i@, ErrorKind::IsNot)
        },
{
    ttl_parser::statement_ending(i)
}

} // verus!
