//! The line parsers for Turtle: the tail-comment trimmer, the terminator
//! detectors, the lexical tests on a line's tokens, and the classifier that
//! names the role a line plays.

use crate::declarations::turtle::StatementKind;
use crate::loader::parsers::{parsed, refused, ErrorKind, TurtleInput, TurtleParseError};
use crate::loader::text::{
    all_whitespace, chars_of, count_char, count_char_in, find_char, is_whitespace,
    is_whitespace_char, lemma_all_whitespace_trims_to_empty, lemma_spans_cover_within,
    lemma_split_nonempty, lemma_trim_end_idempotent, lemma_trim_end_len, pieces, split,
    split_spans, trim, trim_end, trim_end_index, trim_end_len, trim_start_index,
};
use vstd::prelude::*;
use vstd::string::*;

verus! {

/// The line is at least two characters long and ends in `mark` with a space
/// right before it.
pub open spec fn ends_with_spaced(s: Seq<char>, mark: char) -> bool {
    s.len() >= 2 && s[s.len() - 1] == mark && s[s.len() - 2] == ' '
}

/// The line ends a statement: ` .`
pub open spec fn ends_statement(s: Seq<char>) -> bool {
    ends_with_spaced(s, '.')
}

/// The line ends one part of a statement and announces another: ` ;` or ` ,`
pub open spec fn ends_part(s: Seq<char>) -> bool {
    ends_with_spaced(s, ';') || ends_with_spaced(s, ',')
}

/// Terminator detector for the end of a statement.
pub fn has_reached_end_of_statement(line: &Vec<char>) -> (b: bool)
    ensures
        b == ends_statement(line@),
{
    let count: usize = line.len();
    count >= 2 && line[count - 1] == '.' && line[count - 2] == ' '
}

/// Terminator detector for the end of a part of a statement.
pub fn has_reached_end_of_part_of_a_statement(line: &Vec<char>) -> (b: bool)
    ensures
        b == ends_part(line@),
{
    let count: usize = line.len();
    count >= 2 && (line[count - 1] == ',' || line[count - 1] == ';') && line[count - 2] == ' '
}

/// Accepts a line that ends a statement; the whole line is the output.
pub fn statement_ending(i: &str) -> (r: Result<(&str, &str), TurtleParseError>)
    ensures
        if ends_statement(i@) {
            parsed(r, Seq::empty(), i@)
        } else {
            refused(r, i@, ErrorKind::IsNot)
        },
{
    let line = chars_of(i);
    if has_reached_end_of_statement(&line) {
        Ok(i.take_right(0))
    } else {
        Err(TurtleParseError::from_error_kind(i, ErrorKind::IsNot))
    }
}

/// Accepts a line that ends a part of a statement; the whole line is the output.
pub fn statement_part_ending(i: &str) -> (r: Result<(&str, &str), TurtleParseError>)
    ensures
        if ends_part(i@) {
            parsed(r, Seq::empty(), i@)
        } else {
            refused(r, i@, ErrorKind::IsNot)
        },
{
    let line = chars_of(i);
    if has_reached_end_of_part_of_a_statement(&line) {
        Ok(i.take_right(0))
    } else {
        Err(TurtleParseError::from_error_kind(i, ErrorKind::IsNot))
    }
}

/// Accepts a line with nothing but whitespace on it; the line is the output.
pub fn is_empty_statement(i: &str) -> (r: Result<(&str, &str), TurtleParseError>)
    ensures
        if all_whitespace(i@) {
            parsed(r, Seq::empty(), i@)
        } else {
            refused(r, i@, ErrorKind::IsNot)
        },
{
    let line = chars_of(i);
    let end: usize = trim_end_index(&line, line.len());
    proof {
        assert(line@.take(line@.len() as int) =~= line@);
        lemma_all_whitespace_trims_to_empty(line@);
        reveal_strlit("");
    }
    if end == 0 {
        Ok(("", i))
    } else {
        Err(TurtleParseError::from_error_kind(i, ErrorKind::IsNot))
    }
}

/// The first character of `s` is `c`.
pub open spec fn starts_with_char(s: Seq<char>, c: char) -> bool {
    s.len() > 0 && s[0] == c
}

/// The keyword that opens a namespace declaration.
pub open spec fn prefix_keyword() -> Seq<char> {
    seq!['@', 'p', 'r', 'e', 'f', 'i', 'x']
}

/// The keyword that opens the base declaration.
pub open spec fn base_keyword() -> Seq<char> {
    seq!['@', 'b', 'a', 's', 'e']
}

/// `nom::bytes::complete::tag` applied to `pattern` and run on `i`, with nom's
/// error dropped. nom succeeds exactly when `i` begins with `pattern`, and then
/// hands back the input after the pattern and the part that matched it. It
/// compares bytes; of two well-formed strings one begins with the other's bytes
/// exactly when it begins with the other's characters.
#[verifier::external_body]
fn tag<'a>(pattern: &str, i: &'a str) -> (r: Option<(&'a str, &'a str)>)
    ensures
        r is Some <==> pattern@.is_prefix_of(i@),
        r matches Some(p) ==> p.0@ == i@.skip(pattern@.len() as int) && p.1@ == pattern@,
{
    nom::bytes::complete::tag::<&str, &str, nom::error::Error<&str>>(pattern)(i).ok()
}

/// `nom::character::complete::char` applied to `c` and run on `i`, with nom's
/// error dropped. nom succeeds exactly when the first character of `i` is `c`,
/// and then hands back the input after that character, and the character.
#[verifier::external_body]
fn one_char<'a>(c: char, i: &'a str) -> (r: Option<(&'a str, char)>)
    ensures
        r is Some <==> starts_with_char(i@, c),
        r matches Some(p) ==> p.0@ == i@.skip(1) && p.1 == c,
{
    nom::character::complete::char::<&str, nom::error::Error<&str>>(c)(i).ok()
}

/// Accepts a line that begins with `#`: the `#` is the output, what follows
/// it is left.
pub fn is_a_comment(i: &str) -> (r: Result<(&str, &str), TurtleParseError>)
    ensures
        if starts_with_char(i@, '#') {
            parsed(r, i@.skip(1), seq!['#'])
        } else {
            refused(r, i@, ErrorKind::Tag)
        },
{
    proof {
        reveal_strlit("#");
        if "#"@.is_prefix_of(i@) {
            assert(i@.subrange(0, 1)[0] == '#');
        }
    }
    match tag("#", i) {
        Some(found) => Ok(found),
        None => Err(TurtleParseError::from_error_kind(i, ErrorKind::Tag)),
    }
}

/// Accepts a line that begins with `@prefix`: the keyword is the output, what
/// follows it is left.
pub fn is_a_norm_prefix(i: &str) -> (r: Result<(&str, &str), TurtleParseError>)
    ensures
        if prefix_keyword().is_prefix_of(i@) {
            parsed(r, i@.skip(7), prefix_keyword())
        } else {
            refused(r, i@, ErrorKind::Tag)
        },
{
    proof {
        reveal_strlit("@prefix");
    }
    match tag("@prefix", i) {
        Some(found) => Ok(found),
        None => Err(TurtleParseError::from_error_kind(i, ErrorKind::Tag)),
    }
}

/// Accepts a line that begins with `@base`: the keyword is the output, what
/// follows it is left.
pub fn is_a_base_prefix(i: &str) -> (r: Result<(&str, &str), TurtleParseError>)
    ensures
        if base_keyword().is_prefix_of(i@) {
            parsed(r, i@.skip(5), base_keyword())
        } else {
            refused(r, i@, ErrorKind::Tag)
        },
{
    proof {
        reveal_strlit("@base");
    }
    match tag("@base", i) {
        Some(found) => Ok(found),
        None => Err(TurtleParseError::from_error_kind(i, ErrorKind::Tag)),
    }
}

/// Accepts input that begins with `.`: the `.` is the output, what follows it
/// is left.
pub fn find_terminator(i: &str) -> (r: Result<(&str, char), TurtleParseError>)
    ensures
        if starts_with_char(i@, '.') {
            r matches Ok(p) && p.0@ =~= i@.skip(1) && p.1 == '.'
        } else {
            refused(r, i@, ErrorKind::Char)
        },
{
    match one_char('.', i) {
        Some(found) => Ok(found),
        None => Err(TurtleParseError::from_error_kind(i, ErrorKind::Char)),
    }
}

/// The line holds a `.` and, around it, nothing but whitespace.
pub open spec fn is_lone_terminator(s: Seq<char>) -> bool {
    trim(s) =~= seq!['.']
}

/// Accepts a line that holds nothing but one `.`; the line is the output.
pub fn is_valid_statement_terminator(i: &str) -> (r: Result<(&str, &str), TurtleParseError>)
    ensures
        if is_lone_terminator(i@) {
            parsed(r, Seq::empty(), i@)
        } else {
            refused(r, i@, ErrorKind::IsNot)
        },
{
    let line = chars_of(i);
    let end: usize = trim_end_index(&line, line.len());
    let start: usize = trim_start_index(&line, 0, end);
    proof {
        assert(line@.take(line@.len() as int) =~= line@);
        assert(trim(line@) =~= line@.subrange(start as int, end as int));
        reveal_strlit("");
    }
    if end - start == 1 {
        let inner: &str = i.substring_char(start, end);
        match find_terminator(inner) {
            Ok(_) => Ok(("", i)),
            Err(_) => Err(TurtleParseError::from_error_kind(i, ErrorKind::IsNot)),
        }
    } else {
        Err(TurtleParseError::from_error_kind(i, ErrorKind::IsNot))
    }
}

/// A comment starts at position `i`: a `#` that is not the first character of
/// the line and is followed by a space or by another `#`. A `#` followed by
/// anything else belongs to an IRI.
pub open spec fn tail_comment_at(s: Seq<char>, i: int) -> bool {
    &&& 1 <= i
    &&& i + 1 < s.len()
    &&& s[i] == '#'
    &&& (s[i + 1] == ' ' || s[i + 1] == '#')
}

/// The line carries a comment after its content.
pub open spec fn has_tail_comment(s: Seq<char>) -> bool {
    exists|i: int| tail_comment_at(s, i)
}

/// The first position at or after `from` where a comment starts, or `s.len()`
/// when there is none.
pub open spec fn tail_comment_from(s: Seq<char>, from: int) -> int
    decreases s.len() - from,
{
    if from + 1 >= s.len() {
        s.len() as int
    } else if tail_comment_at(s, from) {
        from
    } else {
        tail_comment_from(s, from + 1)
    }
}

/// Where the line's comment starts, or `s.len()` when it has none.
pub open spec fn tail_comment_start(s: Seq<char>) -> int {
    tail_comment_from(s, 1)
}

/// The line without its comment and without the whitespace that separated the
/// two; the line itself when it carries no comment.
pub open spec fn strip_tail_comment(s: Seq<char>) -> Seq<char> {
    if has_tail_comment(s) {
        trim_end(s.take(tail_comment_start(s)))
    } else {
        s
    }
}

/// `tail_comment_from` reports the first comment start at or after `from`.
pub proof fn lemma_tail_comment_from(s: Seq<char>, from: int)
    requires
        1 <= from,
    ensures
        from <= tail_comment_from(s, from) || tail_comment_from(s, from) == s.len(),
        tail_comment_from(s, from) <= s.len(),
        tail_comment_from(s, from) < s.len() ==> tail_comment_at(s, tail_comment_from(s, from)),
        forall|i: int| from <= i < tail_comment_from(s, from) ==> !tail_comment_at(s, i),
    decreases s.len() - from,
{
    if from + 1 < s.len() && !tail_comment_at(s, from) {
        lemma_tail_comment_from(s, from + 1);
    }
}

/// A line has a comment exactly when `tail_comment_start` points inside it,
/// and then at the first place where one starts.
pub proof fn lemma_tail_comment_start(s: Seq<char>)
    ensures
        has_tail_comment(s) <==> tail_comment_start(s) < s.len(),
        has_tail_comment(s) ==> tail_comment_at(s, tail_comment_start(s)),
        forall|i: int| i < tail_comment_start(s) ==> !tail_comment_at(s, i),
{
    lemma_tail_comment_from(s, 1);
}

/// Cuts the comment off the end of a line. `None` says that the line carries
/// no comment.
pub fn trim_tail_comment(x: &str) -> (r: Option<&str>)
    ensures
        match r {
            Some(t) => has_tail_comment(x@) && t@ == strip_tail_comment(x@),
            None => !has_tail_comment(x@),
        },
{
    let line = chars_of(x);
    let n: usize = line.len();
    let mut i: usize = 1;
    proof {
        lemma_tail_comment_start(x@);
    }
    while i < n && i + 1 < n
        invariant
            1 <= i,
            n == line@.len(),
            line@ == x@,
            tail_comment_from(x@, i as int) == tail_comment_start(x@),
        decreases n - i,
    {
        if line[i] == '#' && (line[i + 1] == ' ' || line[i + 1] == '#') {
            let end: usize = trim_end_index(&line, i);
            return Some(x.substring_char(0, end));
        }
        i = i + 1;
    }
    None
}

/// Accepts a line that does not begin with `#` and carries a comment after its
/// content; the output is the line without that comment.
pub fn find_and_trim_tail_comment(input: &str) -> (r: Result<(&str, &str), TurtleParseError>)
    ensures
        if !starts_with_char(input@, '#') && has_tail_comment(input@) {
            parsed(r, Seq::empty(), strip_tail_comment(input@))
        } else {
            refused(r, input@, ErrorKind::IsNot)
        },
{
    proof {
        reveal_strlit("");
    }
    match is_a_comment(input) {
        Ok(_) => Err(TurtleParseError::from_error_kind(input, ErrorKind::IsNot)),
        Err(_) => match trim_tail_comment(input) {
            Some(s) => Ok(("", s)),
            None => Err(TurtleParseError::from_error_kind(input, ErrorKind::IsNot)),
        },
    }
}

/// Once stripped, a line carries no comment, so that stripping it again
/// changes nothing; and a line without a comment is left as it is.
pub proof fn lemma_strip_tail_comment_idempotent(s: Seq<char>)
    ensures
        !has_tail_comment(strip_tail_comment(s)),
        strip_tail_comment(strip_tail_comment(s)) == strip_tail_comment(s),
        !has_tail_comment(s) ==> strip_tail_comment(s) == s,
{
    lemma_tail_comment_start(s);
    let out = strip_tail_comment(s);
    if has_tail_comment(s) {
        let start = tail_comment_start(s);
        lemma_trim_end_len(s.take(start));
        assert forall|j: int| !tail_comment_at(out, j) by {
            if tail_comment_at(out, j) {
                assert(tail_comment_at(s, j));
            }
        }
    }
}

/// The text a declaration carries between its keyword and its closing `.`,
/// without the whitespace around it. There is none when the line does not
/// begin with the keyword or does not end in `.`
pub open spec fn declared_text(s: Seq<char>, keyword: Seq<char>) -> Option<Seq<char>> {
    let rest = s.skip(keyword.len() as int);
    if keyword.is_prefix_of(s) && rest.len() > 0 && rest.last() == '.' {
        Some(trim(rest.drop_last()))
    } else {
        None
    }
}

/// The text is an IRI in its angle brackets.
pub open spec fn is_bracketed(s: Seq<char>) -> bool {
    s.len() >= 2 && s.first() == '<' && s.last() == '>'
}

/// The IRI, still in its angle brackets, that a base declaration declares.
/// There is none when the line is no base declaration closed by `.`, or when
/// what it declares is not in angle brackets.
pub open spec fn base_iri_of(s: Seq<char>) -> Option<Seq<char>> {
    match declared_text(s, base_keyword()) {
        Some(t) => if is_bracketed(t) {
            Some(t)
        } else {
            None
        },
        None => None,
    }
}

/// The namespace that a namespace declaration declares: what stands before
/// the first `:` of its text, and whether that is empty (the default
/// namespace). There is none when the line is no namespace declaration closed
/// by `.`
pub open spec fn prefix_namespace_of(s: Seq<char>) -> Option<(Seq<char>, bool)> {
    match declared_text(s, prefix_keyword()) {
        Some(t) => {
            let namespace = split(t, ':')[0];
            Some((namespace, namespace.len() == 0))
        },
        None => None,
    }
}

/// From `@base <http://example.org/> .` this takes `<http://example.org/>`.
pub fn get_base_iri_from_raw_statement(raw: &str) -> (iri: Option<String>)
    ensures
        iri.deep_view() == base_iri_of(raw@),
{
    match is_a_base_prefix(raw) {
        Ok(found) => {
            let rest: &str = found.0;
            let chars = chars_of(rest);
            let n: usize = chars.len();
            if n == 0 || chars[n - 1] != '.' {
                return None;
            }
            let end: usize = trim_end_index(&chars, n - 1);
            let start: usize = trim_start_index(&chars, 0, end);
            proof {
                let body = chars@.drop_last();
                assert(chars@.subrange(0, end as int) =~= trim_end(body));
            }
            if end - start >= 2 && chars[start] == '<' && chars[end - 1] == '>' {
                Some(String::from_str(rest.substring_char(start, end)))
            } else {
                None
            }
        },
        Err(_) => None,
    }
}

/// From `@prefix cco: <http://example.org/cco#> .` this takes `cco`, and says
/// whether the namespace is the empty one.
pub fn get_prefix_iri_from_raw_statement(raw: &str) -> (namespace: Option<(String, bool)>)
    ensures
        match namespace {
            Some(found) => prefix_namespace_of(raw@) == Some((found.0@, found.1)),
            None => prefix_namespace_of(raw@) is None,
        },
{
    match is_a_norm_prefix(raw) {
        Ok(found) => {
            let rest: &str = found.0;
            let chars = chars_of(rest);
            let n: usize = chars.len();
            if n == 0 || chars[n - 1] != '.' {
                return None;
            }
            let end: usize = trim_end_index(&chars, n - 1);
            let start: usize = trim_start_index(&chars, 0, end);
            let colon: usize = find_char(&chars, start, end, ':');
            proof {
                let body = chars@.drop_last();
                assert(chars@.subrange(0, end as int) =~= trim_end(body));
                assert(trim(body) =~= chars@.subrange(start as int, end as int));
                lemma_split_nonempty(trim(body), ':');
            }
            Some((String::from_str(rest.substring_char(start, colon)), colon == start))
        },
        Err(_) => None,
    }
}

/// The line closes a bracketed collection: its last two words are `]` and `;`
pub open spec fn is_tail_collection_ending(s: Seq<char>) -> bool {
    let end = trim_end_len(s) as int;
    &&& end >= 1
    &&& s[end - 1] == ';'
    &&& {
        let mid = trim_end_len(s.take(end - 1)) as int;
        &&& 1 <= mid < end - 1
        &&& s[mid - 1] == ']'
        &&& (mid == 1 || is_whitespace(s[mid - 2]))
    }
}

/// The line carries a subject before its predicate: cut at single spaces, it
/// has more than three pieces and exactly one `:` in the second.
pub open spec fn has_subject_token(s: Seq<char>) -> bool {
    let tokens = split(s, ' ');
    tokens.len() > 3 && count_char(tokens[1], ':') == 1
}

/// The line carries a predicate before its object: cut at single spaces, its
/// first piece has exactly one `:` and its second is not a lone `,`
pub open spec fn has_predicate_token(s: Seq<char>) -> bool {
    let tokens = split(s, ' ');
    count_char(tokens[0], ':') == 1 && !(tokens.len() > 1 && tokens[1] =~= seq![','])
}

/// The line is a literal in a list: its first piece has no `:` and it ends in
/// `,` or `;`
pub open spec fn is_literal_line(s: Seq<char>) -> bool {
    &&& count_char(split(s, ' ')[0], ':') == 0
    &&& s.len() > 0
    &&& (s.last() == ',' || s.last() == ';')
}

/// The line opens with `[` and closes with `]`.
pub open spec fn is_bracket_delimited(s: Seq<char>) -> bool {
    s.len() >= 2 && s.first() == '[' && s.last() == ']'
}

/// [`has_tail_collection_ending`] on a line whose characters are at hand.
pub fn has_tail_collection_ending_chars(line: &Vec<char>) -> (b: bool)
    ensures
        b == is_tail_collection_ending(line@),
{
    let n: usize = line.len();
    let end: usize = trim_end_index(line, n);
    proof {
        assert(line@.take(n as int) =~= line@);
    }
    if end == 0 || line[end - 1] != ';' {
        return false;
    }
    let mid: usize = trim_end_index(line, end - 1);
    1 <= mid && mid < end - 1 && line[mid - 1] == ']' && (mid == 1 || is_whitespace_char(
        line[mid - 2],
    ))
}

/// [`has_subject_in_predicate`] on a line whose characters are at hand.
pub fn has_subject_in_predicate_chars(line: &Vec<char>) -> (b: bool)
    ensures
        b == has_subject_token(line@),
{
    let spans = split_spans(line, ' ');
    if spans.len() > 3 {
        let second: (usize, usize) = spans[1];
        proof {
            lemma_spans_cover_within(spans@, line@.len(), 1);
        }
        count_char_in(line, second.0, second.1, ':') == 1
    } else {
        false
    }
}

/// [`has_predicate_in_object`] on a line whose characters are at hand.
pub fn has_predicate_in_object_chars(line: &Vec<char>) -> (b: bool)
    ensures
        b == has_predicate_token(line@),
{
    let spans = split_spans(line, ' ');
    let first: (usize, usize) = spans[0];
    proof {
        lemma_spans_cover_within(spans@, line@.len(), 0);
    }
    if count_char_in(line, first.0, first.1, ':') != 1 {
        return false;
    }
    if spans.len() > 1 {
        let second: (usize, usize) = spans[1];
        proof {
            lemma_spans_cover_within(spans@, line@.len(), 1);
        }
        let lone_comma: bool = second.1 - second.0 == 1 && line[second.0] == ',';
        proof {
            let token = line@.subrange(second.0 as int, second.1 as int);
            if !lone_comma && token.len() == 1 {
                assert(token[0] != ',');
            }
        }
        !lone_comma
    } else {
        true
    }
}

/// [`is_a_literal`] on a line whose characters are at hand.
pub fn is_a_literal_chars(line: &Vec<char>) -> (b: bool)
    ensures
        b == is_literal_line(line@),
{
    let n: usize = line.len();
    let first_end: usize = find_char(line, 0, n, ' ');
    proof {
        assert(line@.subrange(0, n as int) =~= line@);
        lemma_split_nonempty(line@, ' ');
    }
    count_char_in(line, 0, first_end, ':') == 0 && n > 0 && (line[n - 1] == ',' || line[n - 1]
        == ';')
}

/// Whether the line closes a bracketed collection, as in
/// `owl:someValuesFrom cco:Velocity ] ;`
pub fn has_tail_collection_ending(raw: &str) -> (b: bool)
    ensures
        b == is_tail_collection_ending(raw@),
{
    let line = chars_of(raw);
    has_tail_collection_ending_chars(&line)
}

/// Whether the line opens a subject, as in
/// `cco:doctrinal_source rdf:type owl:AnnotationProperty ;`
pub fn has_subject_in_predicate(x: &str) -> (b: bool)
    ensures
        b == has_subject_token(x@),
{
    let line = chars_of(x);
    has_subject_in_predicate_chars(&line)
}

/// Whether the line opens a predicate, as in `obo:IAO_0000112 "my brain"@en ,`
pub fn has_predicate_in_object(x: &str) -> (b: bool)
    ensures
        b == has_predicate_token(x@),
{
    let line = chars_of(x);
    has_predicate_in_object_chars(&line)
}

/// Whether the line is a literal in a list, as in `"my brain"@en ,`
pub fn is_a_literal(x: &str) -> (b: bool)
    ensures
        b == is_literal_line(x@),
{
    let line = chars_of(x);
    is_a_literal_chars(&line)
}

/// The role of a line that has been cleared of its comment and of trailing
/// whitespace. The tests are made in this order, the more specific before the
/// more general, and the first that holds decides. Among the lines that end in
/// ` ;` a fragment of a bracketed collection and a literal are told apart
/// before the line is read as a predicate.
pub open spec fn line_kind(t: Seq<char>) -> StatementKind {
    if all_whitespace(t) {
        StatementKind::Whitespace
    } else if starts_with_char(t, '#') {
        StatementKind::Comment
    } else if t =~= seq!['.'] {
        StatementKind::Terminator
    } else if prefix_keyword().is_prefix_of(t) {
        StatementKind::NormPrefix
    } else if base_keyword().is_prefix_of(t) {
        StatementKind::BasePrefix
    } else if ends_with_spaced(t, '.') {
        StatementKind::StatementWithTerminator
    } else if ends_with_spaced(t, ';') {
        if starts_with_char(t, '[') || is_tail_collection_ending(t) {
            StatementKind::PartOfCollectionList
        } else if is_literal_line(t) {
            StatementKind::PartOfObjectListAsLiteral
        } else if has_subject_token(t) {
            StatementKind::PartOfPredicateListWithSubject
        } else {
            StatementKind::PartOfPredicateList
        }
    } else if ends_with_spaced(t, ',') {
        if has_predicate_token(t) {
            StatementKind::PartOfObjectListWithPredicate
        } else if is_literal_line(t) {
            StatementKind::PartOfObjectListAsLiteral
        } else {
            StatementKind::PartOfObjectList
        }
    } else if is_bracket_delimited(t) || is_tail_collection_ending(t) {
        StatementKind::PartOfCollectionList
    } else {
        StatementKind::NotATurtle
    }
}

/// A line as the classifier looks at it: without trailing whitespace and
/// without its comment.
pub open spec fn normalized(s: Seq<char>) -> Seq<char> {
    strip_tail_comment(trim_end(s))
}

/// The role of a line as it was read.
pub open spec fn statement_kind(s: Seq<char>) -> StatementKind {
    line_kind(normalized(s))
}

/// Names the role of a line that has been cleared of its comment and of
/// trailing whitespace. Every line has a role: what fits no other is
/// `NotATurtle`.
pub fn classify(line: &str) -> (kind: StatementKind)
    ensures
        kind == line_kind(line@),
{
    let chars = chars_of(line);
    let n: usize = chars.len();
    proof {
        assert(chars@.take(n as int) =~= chars@);
        lemma_all_whitespace_trims_to_empty(chars@);
        reveal_strlit("#");
        reveal_strlit("@prefix");
        reveal_strlit("@base");
        assert("@prefix"@ =~= prefix_keyword());
        assert("@base"@ =~= base_keyword());
        if "#"@.is_prefix_of(line@) {
            assert(line@.subrange(0, 1)[0] == '#');
        }
    }
    if trim_end_index(&chars, n) == 0 {
        return StatementKind::Whitespace;
    }
    if tag("#", line).is_some() {
        return StatementKind::Comment;
    }
    if n == 1 && one_char('.', line).is_some() {
        return StatementKind::Terminator;
    }
    assert(line@ != seq!['.']);
    if tag("@prefix", line).is_some() {
        return StatementKind::NormPrefix;
    }
    if tag("@base", line).is_some() {
        return StatementKind::BasePrefix;
    }
    if has_reached_end_of_statement(&chars) {
        return StatementKind::StatementWithTerminator;
    }
    if has_reached_end_of_part_of_a_statement(&chars) {
        if chars[n - 1] == ';' {
            if chars[0] == '[' || has_tail_collection_ending_chars(&chars) {
                return StatementKind::PartOfCollectionList;
            }
            if is_a_literal_chars(&chars) {
                return StatementKind::PartOfObjectListAsLiteral;
            }
            if has_subject_in_predicate_chars(&chars) {
                return StatementKind::PartOfPredicateListWithSubject;
            }
            return StatementKind::PartOfPredicateList;
        }
        if has_predicate_in_object_chars(&chars) {
            return StatementKind::PartOfObjectListWithPredicate;
        }
        if is_a_literal_chars(&chars) {
            return StatementKind::PartOfObjectListAsLiteral;
        }
        return StatementKind::PartOfObjectList;
    }
    if (n >= 2 && chars[0] == '[' && chars[n - 1] == ']') || has_tail_collection_ending_chars(
        &chars,
    ) {
        return StatementKind::PartOfCollectionList;
    }
    StatementKind::NotATurtle
}

/// The line as the classifier looks at it: `input` without trailing whitespace
/// and without its comment.
pub fn normalize(input: &str) -> (line: &str)
    ensures
        line@ == normalized(input@),
{
    let chars = chars_of(input);
    let end: usize = trim_end_index(&chars, chars.len());
    proof {
        assert(chars@.take(chars@.len() as int) =~= chars@);
    }
    let line: &str = input.substring_char(0, end);
    match trim_tail_comment(line) {
        Some(stripped) => stripped,
        None => line,
    }
}

/// Names the role of a line as it was read: trailing whitespace and a comment
/// after the content are set aside first.
pub fn parse_turtle(input: &str) -> (kind: StatementKind)
    ensures
        kind == statement_kind(input@),
{
    classify(normalize(input))
}

/// A line that begins with `#` still does once its tail comment is stripped.
pub proof fn lemma_comment_survives_stripping(s: Seq<char>)
    requires
        starts_with_char(s, '#'),
    ensures
        starts_with_char(strip_tail_comment(s), '#'),
        line_kind(strip_tail_comment(s)) == StatementKind::Comment,
        line_kind(s) == StatementKind::Comment,
{
    lemma_tail_comment_start(s);
    assert(!is_whitespace(s[0]));
    if has_tail_comment(s) {
        let head = s.take(tail_comment_start(s));
        lemma_trim_end_len(head);
        assert(!is_whitespace(head[0]));
        assert(!is_whitespace(strip_tail_comment(s)[0]));
    }
}

/// A line with nothing but whitespace on it is `Whitespace`, whether it is
/// looked at as it was read or after it was cleared.
pub proof fn lemma_whitespace_line_is_whitespace(s: Seq<char>)
    requires
        all_whitespace(s),
    ensures
        statement_kind(s) == StatementKind::Whitespace,
        line_kind(s) == StatementKind::Whitespace,
{
    lemma_all_whitespace_trims_to_empty(s);
}

/// A line that begins with `#` is a `Comment`, whatever follows the `#`.
pub proof fn lemma_hash_line_is_comment(s: Seq<char>)
    requires
        starts_with_char(s, '#'),
    ensures
        statement_kind(s) == StatementKind::Comment,
        line_kind(s) == StatementKind::Comment,
{
    lemma_trim_end_len(s);
    assert(!is_whitespace(s[0]));
    lemma_comment_survives_stripping(trim_end(s));
    lemma_comment_survives_stripping(s);
}

/// Every line has exactly one role, and clearing a line twice is clearing it
/// once: the role of a cleared line is the role of the line.
pub proof fn lemma_normalized_is_stable(s: Seq<char>)
    ensures
        normalized(normalized(s)) == normalized(s),
        statement_kind(normalized(s)) == statement_kind(s),
{
    let t = trim_end(s);
    lemma_trim_end_idempotent(s);
    lemma_strip_tail_comment_idempotent(t);
    lemma_tail_comment_start(t);
    if has_tail_comment(t) {
        lemma_trim_end_idempotent(t.take(tail_comment_start(t)));
    }
}

} // verus!
