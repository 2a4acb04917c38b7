//! The assembler: it takes the lines of a Turtle document one by one, each
//! with the role the classifier gave it, and folds them into a document.
//! Declarations go to the header; a line that opens a subject opens a
//! statement, the lines after it add predicates and objects to that statement,
//! and a line that ends in ` .` closes it. Only closed statements reach the
//! document.

use crate::declarations::turtle::{
    DocumentModel, HeaderModel, ObjectModel, PredicateModel, StatementKind, StatementModel,
    TurtleBodyItem, TurtleDocument, TurtleHeaderItem, TurtleObject, TurtlePredicate,
};
use crate::loader::parsers::ttl_parser::{
    base_iri_of, classify, ends_with_spaced, get_base_iri_from_raw_statement,
    get_prefix_iri_from_raw_statement, normalize, normalized, prefix_namespace_of,
    starts_with_char, statement_kind,
};
use crate::loader::text::{
    chars_of, find_char, index_of, lemma_index_of, trim_end, trim_end_index, trim_start,
    trim_start_index,
};
use std::collections::VecDeque;
use vstd::prelude::*;
use vstd::string::*;

verus! {

/// The line ends in one of the three marks, set off by a space.
pub open spec fn is_terminated(t: Seq<char>) -> bool {
    ends_with_spaced(t, '.') || ends_with_spaced(t, ';') || ends_with_spaced(t, ',')
}

/// What a cleared line says: the line without its closing mark and without
/// the whitespace around what is left.
pub open spec fn content(t: Seq<char>) -> Seq<char> {
    if is_terminated(t) {
        trim_start(trim_end(t.take(t.len() - 2)))
    } else {
        trim_start(trim_end(t))
    }
}

/// The first word of `text`: what stands before its first space.
pub open spec fn head(text: Seq<char>) -> Seq<char> {
    text.take(index_of(text, ' '))
}

/// What follows the first word of `text`, without the whitespace between the
/// two.
pub open spec fn tail(text: Seq<char>) -> Seq<char> {
    trim_start(text.skip(index_of(text, ' ')))
}

/// The object that `text` denotes. Text that opens with `<` is an IRI; text
/// that does not open with `"` and has a `:` after at least one character is a
/// namespaced name, cut at its first `:`; anything else is a literal.
pub open spec fn object_of(text: Seq<char>) -> ObjectModel {
    let colon = index_of(text, ':');
    if starts_with_char(text, '<') {
        ObjectModel {
            raw_object: Some(text),
            object_is_iri: true,
            object_as_iri: Some(text),
            object_is_literal: false,
            object_as_literal: None,
            object_namespace: None,
            object_namespace_value: None,
        }
    } else if !starts_with_char(text, '"') && 0 < colon < text.len() {
        ObjectModel {
            raw_object: Some(text),
            object_is_iri: false,
            object_as_iri: None,
            object_is_literal: false,
            object_as_literal: None,
            object_namespace: Some(text.take(colon)),
            object_namespace_value: Some(text.skip(colon + 1)),
        }
    } else {
        literal_object(text)
    }
}

/// The object that holds `text` as a literal, whatever the text looks like.
/// A fragment of a bracketed collection is kept this way, unread.
pub open spec fn literal_object(text: Seq<char>) -> ObjectModel {
    ObjectModel {
        raw_object: Some(text),
        object_is_iri: false,
        object_as_iri: None,
        object_is_literal: true,
        object_as_literal: Some(text),
        object_namespace: None,
        object_namespace_value: None,
    }
}

/// The objects that `text` denotes: none when there is no text, else one.
pub open spec fn objects_of(text: Seq<char>) -> Seq<ObjectModel> {
    if text.len() == 0 {
        Seq::empty()
    } else {
        seq![object_of(text)]
    }
}

/// The predicate that `name` denotes, with the given objects. The name is
/// read as an object's text is: an IRI, a namespaced name, or else a bare
/// word, which is kept as a literal.
pub open spec fn predicate_of(name: Seq<char>, objects: Seq<ObjectModel>) -> PredicateModel {
    let colon = index_of(name, ':');
    if starts_with_char(name, '<') {
        PredicateModel {
            raw_predicate_object: Some(name),
            predicate_is_iri: true,
            predicate_as_iri_or_literal: Some(name),
            predicate_is_literal: false,
            predicate_as_literal: None,
            predicate_namespace: None,
            predicate_namespace_value: None,
            object: objects,
        }
    } else if !starts_with_char(name, '"') && 0 < colon < name.len() {
        PredicateModel {
            raw_predicate_object: Some(name),
            predicate_is_iri: false,
            predicate_as_iri_or_literal: None,
            predicate_is_literal: false,
            predicate_as_literal: None,
            predicate_namespace: Some(name.take(colon)),
            predicate_namespace_value: Some(name.skip(colon + 1)),
            object: objects,
        }
    } else {
        PredicateModel {
            raw_predicate_object: Some(name),
            predicate_is_iri: false,
            predicate_as_iri_or_literal: Some(name),
            predicate_is_literal: true,
            predicate_as_literal: Some(name),
            predicate_namespace: None,
            predicate_namespace_value: None,
            object: objects,
        }
    }
}

/// The predicate that `text` states: its first word names the predicate and
/// what follows is the first object.
pub open spec fn predicate_from(text: Seq<char>) -> PredicateModel {
    predicate_of(head(text), objects_of(tail(text)))
}

/// A text with its characters unpacked once. Positions into `chars` are
/// positions into `source`.
struct Line<'a> {
    source: &'a str,
    chars: Vec<char>,
}

impl<'a> Line<'a> {
    /// The two fields hold the same text.
    spec fn wf(&self) -> bool {
        self.chars@ == self.source@
    }

    /// The text between two positions.
    spec fn span(&self, lo: usize, hi: usize) -> Seq<char> {
        self.source@.subrange(lo as int, hi as int)
    }

    fn new(source: &'a str) -> (line: Line<'a>)
        ensures
            line.wf(),
            line.source@ == source@,
    {
        Line { source, chars: chars_of(source) }
    }

    /// The text between two positions, as a string of its own.
    fn text(&self, lo: usize, hi: usize) -> (s: String)
        requires
            self.wf(),
            lo <= hi <= self.source@.len(),
        ensures
            s@ == self.span(lo, hi),
    {
        String::from_str(self.source.substring_char(lo, hi))
    }

    /// Where the content of the line lies.
    fn content_span(&self) -> (at: (usize, usize))
        requires
            self.wf(),
        ensures
            at.0 <= at.1 <= self.source@.len(),
            self.span(at.0, at.1) == content(self.source@),
    {
        let n: usize = self.chars.len();
        let marked: bool = n >= 2 && self.chars[n - 2] == ' ' && (self.chars[n - 1] == '.'
            || self.chars[n - 1] == ';' || self.chars[n - 1] == ',');
        let limit: usize = if marked {
            n - 2
        } else {
            n
        };
        let hi: usize = trim_end_index(&self.chars, limit);
        let lo: usize = trim_start_index(&self.chars, 0, hi);
        proof {
            let t = self.source@;
            let kept = t.take(limit as int);
            assert(t.take(n as int) =~= t);
            assert(t.subrange(0, hi as int) =~= trim_end(kept));
        }
        (lo, hi)
    }

    /// Where the first word of the text between two positions ends, and where
    /// the rest of that text begins.
    fn cut(&self, lo: usize, hi: usize) -> (at: (usize, usize))
        requires
            self.wf(),
            lo <= hi <= self.source@.len(),
        ensures
            lo <= at.0 <= at.1 <= hi,
            self.span(lo, at.0) == head(self.span(lo, hi)),
            self.span(at.1, hi) == tail(self.span(lo, hi)),
    {
        let space: usize = find_char(&self.chars, lo, hi, ' ');
        let next: usize = trim_start_index(&self.chars, space, hi);
        proof {
            let text = self.span(lo, hi);
            assert(text.skip(space - lo) =~= self.span(space, hi));
        }
        (space, next)
    }

    /// The object that the text between two positions denotes.
    fn object(&self, lo: usize, hi: usize) -> (o: TurtleObject)
        requires
            self.wf(),
            lo <= hi <= self.source@.len(),
        ensures
            o@ == object_of(self.span(lo, hi)),
    {
        let colon: usize = find_char(&self.chars, lo, hi, ':');
        proof {
            let text = self.span(lo, hi);
            lemma_index_of(text, ':');
            if colon < hi {
                assert(text.take(colon - lo) =~= self.span(lo, colon));
                assert(text.skip(colon - lo + 1) =~= self.span((colon + 1) as usize, hi));
            }
        }
        if lo < hi && self.chars[lo] == '<' {
            TurtleObject {
                raw_object: Some(self.text(lo, hi)),
                object_is_iri: true,
                object_as_iri: Some(self.text(lo, hi)),
                object_is_literal: false,
                object_as_literal: None,
                object_namespace: None,
                object_namespace_value: None,
            }
        } else if !(lo < hi && self.chars[lo] == '"') && lo < colon && colon < hi {
            TurtleObject {
                raw_object: Some(self.text(lo, hi)),
                object_is_iri: false,
                object_as_iri: None,
                object_is_literal: false,
                object_as_literal: None,
                object_namespace: Some(self.text(lo, colon)),
                object_namespace_value: Some(self.text(colon + 1, hi)),
            }
        } else {
            self.literal(lo, hi)
        }
    }

    /// The text between two positions, kept as a literal object.
    fn literal(&self, lo: usize, hi: usize) -> (o: TurtleObject)
        requires
            self.wf(),
            lo <= hi <= self.source@.len(),
        ensures
            o@ == literal_object(self.span(lo, hi)),
    {
        TurtleObject {
            raw_object: Some(self.text(lo, hi)),
            object_is_iri: false,
            object_as_iri: None,
            object_is_literal: true,
            object_as_literal: Some(self.text(lo, hi)),
            object_namespace: None,
            object_namespace_value: None,
        }
    }

    /// The predicate that the text between two positions states: a name and,
    /// where something follows the name, a first object.
    fn predicate(&self, lo: usize, hi: usize) -> (p: TurtlePredicate)
        requires
            self.wf(),
            lo <= hi <= self.source@.len(),
        ensures
            p@ == predicate_from(self.span(lo, hi)),
    {
        let at: (usize, usize) = self.cut(lo, hi);
        let end: usize = at.0;
        let mut object: VecDeque<TurtleObject> = VecDeque::new();
        if at.1 < hi {
            object.push_back(self.object(at.1, hi));
        }
        let colon: usize = find_char(&self.chars, lo, end, ':');
        proof {
            let name = self.span(lo, end);
            lemma_index_of(name, ':');
            if colon < end {
                assert(name.take(colon - lo) =~= self.span(lo, colon));
                assert(name.skip(colon - lo + 1) =~= self.span((colon + 1) as usize, end));
            }
            assert(object.deep_view() =~= objects_of(tail(self.span(lo, hi))));
        }
        if lo < end && self.chars[lo] == '<' {
            TurtlePredicate {
                raw_predicate_object: Some(self.text(lo, end)),
                predicate_is_iri: true,
                predicate_as_iri_or_literal: Some(self.text(lo, end)),
                predicate_is_literal: false,
                predicate_as_literal: None,
                predicate_namespace: None,
                predicate_namespace_value: None,
                object,
            }
        } else if !(lo < end && self.chars[lo] == '"') && lo < colon && colon < end {
            TurtlePredicate {
                raw_predicate_object: Some(self.text(lo, end)),
                predicate_is_iri: false,
                predicate_as_iri_or_literal: None,
                predicate_is_literal: false,
                predicate_as_literal: None,
                predicate_namespace: Some(self.text(lo, colon)),
                predicate_namespace_value: Some(self.text(colon + 1, end)),
                object,
            }
        } else {
            TurtlePredicate {
                raw_predicate_object: Some(self.text(lo, end)),
                predicate_is_iri: false,
                predicate_as_iri_or_literal: Some(self.text(lo, end)),
                predicate_is_literal: true,
                predicate_as_literal: Some(self.text(lo, end)),
                predicate_namespace: None,
                predicate_namespace_value: None,
                object,
            }
        }
    }
}

/// An object read from text is exactly one of an IRI, a literal and a
/// namespaced name, and so is a predicate, together with its objects.
pub proof fn lemma_read_values_are_well_formed(text: Seq<char>)
    ensures
        object_of(text).wf(),
        literal_object(text).wf(),
        predicate_from(text).wf(),
{
    lemma_index_of(text, ':');
    lemma_index_of(head(text), ':');
    lemma_index_of(tail(text), ':');
}

/// Model of an [`Accumulator`]: the document read so far, which holds closed
/// statements only, the statement that is still open, if any, and whether a
/// base was declared when the document had one already.
pub struct AccumulatorModel {
    pub document: DocumentModel,
    pub current: Option<StatementModel>,
    pub second_base: bool,
}

/// The header item that the base declaration `line` gives.
pub open spec fn base_header(line: Seq<char>) -> HeaderModel {
    HeaderModel {
        is_base: true,
        is_empty: false,
        prefix_namespace: None,
        prefix_iri: base_iri_of(normalized(line)),
        raw_header: Some(line),
    }
}

/// The header item that the namespace declaration `line` gives. Where no
/// namespace can be read from the line, the item records none.
pub open spec fn prefix_header(line: Seq<char>) -> HeaderModel {
    match prefix_namespace_of(normalized(line)) {
        Some(found) => HeaderModel {
            is_base: false,
            is_empty: found.1,
            prefix_namespace: Some(found.0),
            prefix_iri: None,
            raw_header: Some(line),
        },
        None => HeaderModel {
            is_base: false,
            is_empty: false,
            prefix_namespace: None,
            prefix_iri: None,
            raw_header: Some(line),
        },
    }
}

/// The statement that `text` opens: its first word is the subject, and what
/// follows states the first predicate.
pub open spec fn statement_from(text: Seq<char>) -> StatementModel {
    StatementModel { subject: Some(head(text)), predicate: seq![predicate_from(tail(text))] }
}

/// The statement that `text` makes when no subject is open. With three words
/// or more the first is the subject; with fewer the text states a predicate
/// of a subject that is not known.
pub open spec fn lone_statement(text: Seq<char>) -> StatementModel {
    if tail(tail(text)).len() > 0 {
        statement_from(text)
    } else {
        StatementModel { subject: None, predicate: seq![predicate_from(text)] }
    }
}

/// The open statement `open` once the closing line's `text` is added. Text
/// that opens with `"` or is a single word is one more object of the last
/// predicate; other text states one more predicate.
pub open spec fn completed(open: StatementModel, text: Seq<char>) -> StatementModel {
    if text.len() == 0 {
        open
    } else if starts_with_char(text, '"') || tail(text).len() == 0 {
        open.with_object(object_of(text))
    } else {
        open.with_predicate(predicate_from(text))
    }
}

impl AccumulatorModel {
    /// Nothing read yet.
    pub open spec fn empty() -> AccumulatorModel {
        AccumulatorModel { document: DocumentModel::empty(), current: None, second_base: false }
    }

    /// The document is well formed, and so is the open statement.
    pub open spec fn wf(self) -> bool {
        &&& self.document.wf()
        &&& self.current matches Some(open) ==> open.wf()
    }

    /// One more header item.
    pub open spec fn with_header(self, h: HeaderModel) -> AccumulatorModel {
        AccumulatorModel {
            document: DocumentModel { headers: self.document.headers.push(h), ..self.document },
            ..self
        }
    }

    /// One more closed statement.
    pub open spec fn with_statement(self, s: StatementModel) -> AccumulatorModel {
        AccumulatorModel {
            document: DocumentModel { body: self.document.body.push(s), ..self.document },
            ..self
        }
    }

    /// The open statement, if any, is closed and joins the document.
    pub open spec fn closed(self) -> AccumulatorModel {
        match self.current {
            Some(open) => AccumulatorModel { current: None, ..self.with_statement(open) },
            None => self,
        }
    }

    /// The open statement, or one without subject or predicates where none is
    /// open.
    pub open spec fn open_statement(self) -> StatementModel {
        match self.current {
            Some(open) => open,
            None => StatementModel { subject: None, predicate: Seq::empty() },
        }
    }

    /// The state after a line of the given role. `line` is the line as it was
    /// read; what it says is taken from it once it is cleared of comment and
    /// closing mark.
    ///
    /// - A comment, an empty line, a lone `.` and a line that is no Turtle
    ///   change nothing.
    /// - A base declaration adds a header item, unless the document has a base
    ///   already: then the document stays as it is and the second base is
    ///   noted. A namespace declaration adds a header item.
    /// - A line that opens a subject closes the open statement and opens a new
    ///   one with its first predicate.
    /// - A line that continues a predicate list adds a predicate to the open
    ///   statement, a line that continues an object list adds an object to its
    ///   last predicate, and so does a fragment of a collection, unread.
    ///   An object with no predicate to go to is dropped.
    /// - A line that ends a statement adds what it says to the open statement
    ///   and closes it; with none open it makes a statement by itself.
    ///
    /// A line that says nothing adds nothing.
    pub open spec fn step(self, kind: StatementKind, line: Seq<char>) -> AccumulatorModel {
        let cleared = normalized(line);
        let text = content(cleared);
        match kind {
            StatementKind::Comment => self,
            StatementKind::Whitespace => self,
            StatementKind::Terminator => self,
            StatementKind::NotATurtle => self,
            StatementKind::BasePrefix => if self.document.bases().len() == 0 {
                self.with_header(base_header(line))
            } else {
                AccumulatorModel { second_base: true, ..self }
            },
            StatementKind::NormPrefix => self.with_header(prefix_header(line)),
            StatementKind::PartOfPredicateListWithSubject => if text.len() == 0 {
                self
            } else {
                AccumulatorModel { current: Some(statement_from(text)), ..self.closed() }
            },
            StatementKind::PartOfPredicateList
            | StatementKind::PartOfObjectListWithPredicate => if text.len() == 0 {
                self
            } else {
                AccumulatorModel {
                    current: Some(self.open_statement().with_predicate(predicate_from(text))),
                    ..self
                }
            },
            StatementKind::PartOfObjectList
            | StatementKind::PartOfObjectListAsLiteral => match self.current {
                Some(open) => if text.len() == 0 {
                    self
                } else {
                    AccumulatorModel { current: Some(open.with_object(object_of(text))), ..self }
                },
                None => self,
            },
            StatementKind::PartOfCollectionList => match self.current {
                Some(open) => if trim_start(cleared).len() == 0 {
                    self
                } else {
                    AccumulatorModel {
                        current: Some(open.with_object(literal_object(trim_start(cleared)))),
                        ..self
                    }
                },
                None => self,
            },
            StatementKind::StatementWithTerminator => match self.current {
                Some(open) => AccumulatorModel {
                    current: None,
                    ..self.with_statement(completed(open, text))
                },
                None => if text.len() == 0 {
                    self
                } else {
                    self.with_statement(lone_statement(text))
                },
            },
        }
    }

    /// The state after the given lines, each with the role the classifier
    /// gives it.
    pub open spec fn fold(self, lines: Seq<Seq<char>>) -> AccumulatorModel
        decreases lines.len(),
    {
        if lines.len() == 0 {
            self
        } else {
            self.fold(lines.drop_last()).step(statement_kind(lines.last()), lines.last())
        }
    }
}

/// Folds classified lines into a document. It owns the document while it is
/// being read and hands it over at the end, with closed statements only.
pub struct Accumulator {
    document: TurtleDocument,
    current: Option<TurtleBodyItem>,
    second_base: bool,
}

/// What an [`Accumulator`] hands over at the end of the input.
#[derive(Debug, Clone, PartialEq)]
pub struct Loaded {
    /// The document, with closed statements only.
    pub document: TurtleDocument,
    /// Whether the input broke off inside a statement. That statement is not
    /// part of the document.
    pub truncated: bool,
    /// Whether a base was declared when the document had one already. Only
    /// the first is part of the document.
    pub second_base: bool,
}

impl Loaded {
    /// What the final state `state` hands over.
    pub open spec fn is_outcome_of(&self, state: AccumulatorModel) -> bool {
        &&& self.document@ == state.document
        &&& self.truncated == (state.current is Some)
        &&& self.second_base == state.second_base
    }
}

impl View for Accumulator {
    type V = AccumulatorModel;

    closed spec fn view(&self) -> AccumulatorModel {
        AccumulatorModel {
            document: self.document@,
            current: self.current.deep_view(),
            second_base: self.second_base,
        }
    }
}

impl Accumulator {
    /// What is held is well formed at all times.
    #[verifier::type_invariant]
    spec fn inv(&self) -> bool {
        self@.wf()
    }

    /// An accumulator that has read nothing.
    pub fn new() -> (a: Accumulator)
        ensures
            a@ == AccumulatorModel::empty(),
            a@.wf(),
    {
        Accumulator { document: TurtleDocument::new(), current: None, second_base: false }
    }

    /// Whether a statement is open: begun and not yet ended by a line in ` .`
    pub fn is_open(&self) -> (b: bool)
        ensures
            b == (self@.current is Some),
    {
        self.current.is_some()
    }

    /// Takes the document out and leaves an empty one in its place.
    fn take_document(&mut self) -> (document: TurtleDocument)
        ensures
            document@ == old(self)@.document,
            final(self)@ == (AccumulatorModel { document: DocumentModel::empty(), ..old(self)@ }),
    {
        proof {
            use_type_invariant(&*self);
        }
        let mut document = TurtleDocument::new();
        std::mem::swap(&mut self.document, &mut document);
        document
    }

    /// Takes the open statement out and leaves none in its place.
    fn take_current(&mut self) -> (current: Option<TurtleBodyItem>)
        ensures
            current.deep_view() == old(self)@.current,
            current matches Some(open) ==> open@.wf(),
            final(self)@ == (AccumulatorModel { current: None, ..old(self)@ }),
    {
        proof {
            use_type_invariant(&*self);
        }
        let mut current: Option<TurtleBodyItem> = None;
        std::mem::swap(&mut self.current, &mut current);
        current
    }

    fn push_header(&mut self, h: TurtleHeaderItem)
        requires
            h@.is_base ==> old(self)@.document.bases().len() == 0,
        ensures
            final(self)@ == old(self)@.with_header(h@),
    {
        proof {
            use_type_invariant(&*self);
            lemma_header_keeps_document_well_formed(self@.document, h@);
        }
        let mut document = self.take_document();
        document.headers.push_back(h);
        assert(document@.headers =~= old(self).document@.headers.push(h@));
        self.document = document;
    }

    fn push_statement(&mut self, s: TurtleBodyItem)
        requires
            s@.wf(),
        ensures
            final(self)@ == old(self)@.with_statement(s@),
    {
        proof {
            use_type_invariant(&*self);
            lemma_statement_keeps_document_well_formed(self@.document, s@);
        }
        let mut document = self.take_document();
        document.body.push_back(s);
        assert(document@.body =~= old(self).document@.body.push(s@));
        self.document = document;
    }

    fn close(&mut self)
        ensures
            final(self)@ == old(self)@.closed(),
    {
        match self.take_current() {
            Some(open) => self.push_statement(open),
            None => {},
        }
    }

    /// Takes in one line with the role it was given. `line` is the line as it
    /// was read. Nothing makes this fail: a line that cannot be used leaves
    /// the state as it was.
    pub fn accumulate(&mut self, kind: StatementKind, line: &str)
        ensures
            final(self)@ == old(self)@.step(kind, line@),
            final(self)@.wf(),
    {
        self.take_in(kind, line, normalize(line));
    }

    /// [`Accumulator::accumulate`], for a caller that has cleared the line
    /// already.
    fn take_in(&mut self, kind: StatementKind, line: &str, cleared: &str)
        requires
            cleared@ == normalized(line@),
        ensures
            final(self)@ == old(self)@.step(kind, line@),
            final(self)@.wf(),
    {
        proof {
            use_type_invariant(&*self);
            lemma_step_preserves_well_formedness(old(self)@, kind, line@);
            lemma_read_values_are_well_formed(content(normalized(line@)));
            lemma_read_values_are_well_formed(tail(content(normalized(line@))));
            lemma_read_values_are_well_formed(trim_start(normalized(line@)));
        }
        match kind {
            StatementKind::Comment => {},
            StatementKind::Whitespace => {},
            StatementKind::Terminator => {},
            StatementKind::NotATurtle => {},
            StatementKind::BasePrefix => {
                if !self.document.has_base() {
                    let iri = get_base_iri_from_raw_statement(cleared);
                    self.push_header(
                        TurtleHeaderItem::new(
                            true,
                            false,
                            None,
                            iri,
                            Some(String::from_str(line)),
                        ),
                    );
                } else {
                    self.second_base = true;
                }
            },
            StatementKind::NormPrefix => {
                let raw = Some(String::from_str(line));
                match get_prefix_iri_from_raw_statement(cleared) {
                    Some(found) => {
                        let is_empty: bool = found.1;
                        self.push_header(
                            TurtleHeaderItem::new(false, is_empty, Some(found.0), None, raw),
                        );
                    },
                    None => {
                        self.push_header(TurtleHeaderItem::new(false, false, None, None, raw));
                    },
                }
            },
            StatementKind::PartOfPredicateListWithSubject => {
                let text = Line::new(cleared);
                let at: (usize, usize) = text.content_span();
                if at.0 < at.1 {
                    let parts: (usize, usize) = text.cut(at.0, at.1);
                    let mut opened = TurtleBodyItem::new(Some(text.text(at.0, parts.0)));
                    opened.push_predicate(text.predicate(parts.1, at.1));
                    self.close();
                    self.current = Some(opened);
                }
            },
            StatementKind::PartOfPredicateList | StatementKind::PartOfObjectListWithPredicate => {
                let text = Line::new(cleared);
                let at: (usize, usize) = text.content_span();
                if at.0 < at.1 {
                    let mut open = match self.take_current() {
                        Some(open) => open,
                        None => TurtleBodyItem::new(None),
                    };
                    open.push_predicate(text.predicate(at.0, at.1));
                    self.current = Some(open);
                }
            },
            StatementKind::PartOfObjectList | StatementKind::PartOfObjectListAsLiteral => {
                let text = Line::new(cleared);
                let at: (usize, usize) = text.content_span();
                if at.0 < at.1 {
                    match self.take_current() {
                        Some(open) => {
                            let mut open = open;
                            open.push_object(text.object(at.0, at.1));
                            self.current = Some(open);
                        },
                        None => {},
                    }
                }
            },
            StatementKind::PartOfCollectionList => {
                let text = Line::new(cleared);
                let n: usize = text.chars.len();
                let lo: usize = trim_start_index(&text.chars, 0, n);
                proof {
                    assert(text.span(0, n) =~= text.source@);
                }
                if lo < n {
                    match self.take_current() {
                        Some(open) => {
                            let mut open = open;
                            open.push_object(text.literal(lo, n));
                            self.current = Some(open);
                        },
                        None => {},
                    }
                }
            },
            StatementKind::StatementWithTerminator => {
                let text = Line::new(cleared);
                let at: (usize, usize) = text.content_span();
                match self.take_current() {
                    Some(open) => {
                        let mut open = open;
                        if at.0 < at.1 {
                            let parts: (usize, usize) = text.cut(at.0, at.1);
                            if text.chars[at.0] == '"' || parts.1 == at.1 {
                                open.push_object(text.object(at.0, at.1));
                            } else {
                                open.push_predicate(text.predicate(at.0, at.1));
                            }
                        }
                        self.push_statement(open);
                    },
                    None => {
                        if at.0 < at.1 {
                            let parts: (usize, usize) = text.cut(at.0, at.1);
                            let rest: (usize, usize) = text.cut(parts.1, at.1);
                            if rest.1 < at.1 {
                                let mut made = TurtleBodyItem::new(
                                    Some(text.text(at.0, parts.0)),
                                );
                                made.push_predicate(text.predicate(parts.1, at.1));
                                self.push_statement(made);
                            } else {
                                let mut made = TurtleBodyItem::new(None);
                                made.push_predicate(text.predicate(at.0, at.1));
                                self.push_statement(made);
                            }
                        }
                    },
                }
            },
        }
    }

    /// Classifies one line as it was read and takes it in. The role is handed
    /// back, so that the caller can tell which lines were not Turtle.
    pub fn feed(&mut self, line: &str) -> (kind: StatementKind)
        ensures
            kind == statement_kind(line@),
            final(self)@ == old(self)@.step(kind, line@),
            final(self)@.wf(),
    {
        let cleared: &str = normalize(line);
        let kind = classify(cleared);
        self.take_in(kind, line, cleared);
        kind
    }

    /// Whether a base was declared when the document had one already.
    pub fn saw_second_base(&self) -> (b: bool)
        ensures
            b == self@.second_base,
    {
        self.second_base
    }

    /// Ends the reading and hands over the document, with a word on whether
    /// the input broke off inside a statement. An open statement is not part
    /// of the document.
    pub fn finish(self) -> (out: Loaded)
        ensures
            out.is_outcome_of(self@),
            out.document@.wf(),
    {
        proof {
            use_type_invariant(&self);
        }
        let truncated: bool = self.current.is_some();
        Loaded { document: self.document, truncated, second_base: self.second_base }
    }
}

/// Reads a whole document from its lines, each classified as it was read.
pub fn load_turtle_lines(lines: &Vec<String>) -> (out: Loaded)
    ensures
        out.is_outcome_of(AccumulatorModel::empty().fold(lines.deep_view())),
        out.document@.wf(),
{
    let mut accumulator = Accumulator::new();
    let n: usize = lines.len();
    let mut i: usize = 0;
    while i < n
        invariant
            i <= n,
            n == lines@.len(),
            accumulator@ == AccumulatorModel::empty().fold(lines.deep_view().take(i as int)),
        decreases n - i,
    {
        proof {
            let next = lines.deep_view().take(i + 1);
            assert(next.drop_last() =~= lines.deep_view().take(i as int));
        }
        accumulator.feed(lines[i].as_str());
        i = i + 1;
    }
    proof {
        assert(lines.deep_view().take(n as int) =~= lines.deep_view());
    }
    accumulator.finish()
}

/// A well-formed document stays well formed when it gets a header item that
/// is no second base.
pub proof fn lemma_header_keeps_document_well_formed(document: DocumentModel, h: HeaderModel)
    requires
        document.wf(),
        h.is_base ==> document.bases().len() == 0,
    ensures
        (DocumentModel { headers: document.headers.push(h), ..document }).wf(),
{
    reveal(Seq::filter);
    assert(document.headers.push(h).drop_last() =~= document.headers);
}

/// A well-formed document stays well formed when it gets a well-formed
/// statement.
pub proof fn lemma_statement_keeps_document_well_formed(document: DocumentModel, s: StatementModel)
    requires
        document.wf(),
        s.wf(),
    ensures
        (DocumentModel { body: document.body.push(s), ..document }).wf(),
{
}

/// Adding a well-formed object or predicate to a well-formed statement leaves
/// it well formed.
pub proof fn lemma_statement_stays_well_formed(
    open: StatementModel,
    o: ObjectModel,
    p: PredicateModel,
)
    requires
        open.wf(),
        o.wf(),
        p.wf(),
    ensures
        open.with_object(o).wf(),
        open.with_predicate(p).wf(),
{
}

/// Whatever line comes, of whatever role, a well-formed state stays well
/// formed: the document keeps at most one base, and every predicate and object
/// in it, and in the open statement, is exactly one of an IRI, a literal and
/// a namespaced name.
pub proof fn lemma_step_preserves_well_formedness(
    state: AccumulatorModel,
    kind: StatementKind,
    line: Seq<char>,
)
    requires
        state.wf(),
    ensures
        state.step(kind, line).wf(),
{
    let next = state.step(kind, line);
    let cleared = normalized(line);
    let text = content(cleared);
    let open = state.open_statement();
    lemma_read_values_are_well_formed(text);
    lemma_read_values_are_well_formed(tail(text));
    lemma_read_values_are_well_formed(trim_start(cleared));
    lemma_statement_stays_well_formed(open, object_of(text), predicate_from(text));
    lemma_statement_stays_well_formed(
        open,
        literal_object(trim_start(cleared)),
        predicate_from(text),
    );
    assert(next.document.bases().len() <= 1) by {
        reveal(Seq::filter);
        if next.document.headers != state.document.headers {
            assert(next.document.headers.drop_last() =~= state.document.headers);
        }
    }
}

/// A line only ever adds to the document: the header items and the closed
/// statements it held before are still there, unchanged and in their places.
pub proof fn lemma_step_only_appends(state: AccumulatorModel, kind: StatementKind, line: Seq<char>)
    ensures
        state.document.headers.is_prefix_of(state.step(kind, line).document.headers),
        state.document.body.is_prefix_of(state.step(kind, line).document.body),
{
}

/// A statement reaches the document only when a line ends it, or when a new
/// subject opens: input that stops in between leaves the statement open and
/// the document without it.
pub proof fn lemma_open_statement_is_not_in_document(
    state: AccumulatorModel,
    kind: StatementKind,
    line: Seq<char>,
)
    requires
        kind != StatementKind::StatementWithTerminator,
        kind != StatementKind::PartOfPredicateListWithSubject,
    ensures
        state.step(kind, line).document.body == state.document.body,
        state.current is Some ==> state.step(kind, line).current is Some,
{
}

/// A second base is noted exactly when a base declaration comes to a
/// document that has a base, and the note is never taken back.
pub proof fn lemma_second_base_is_noted(
    state: AccumulatorModel,
    kind: StatementKind,
    line: Seq<char>,
)
    ensures
        state.step(kind, line).second_base <==> state.second_base || (kind
            == StatementKind::BasePrefix && state.document.bases().len() > 0),
{
}

/// Reading is the same in one go and in two: the state after some lines and
/// then some more is the state after all of them.
pub proof fn lemma_fold_in_parts(
    state: AccumulatorModel,
    first: Seq<Seq<char>>,
    second: Seq<Seq<char>>,
)
    ensures
        state.fold(first + second) == state.fold(first).fold(second),
    decreases second.len(),
{
    if second.len() > 0 {
        assert((first + second).drop_last() =~= first + second.drop_last());
        lemma_fold_in_parts(state, first, second.drop_last());
    }
}

/// Whatever the lines, a well-formed state stays well formed, and the header
/// items and closed statements that the document held are still there at the
/// end, unchanged and in their places.
pub proof fn lemma_fold_keeps_what_was_read(state: AccumulatorModel, lines: Seq<Seq<char>>)
    ensures
        state.wf() ==> state.fold(lines).wf(),
        state.document.headers.is_prefix_of(state.fold(lines).document.headers),
        state.document.body.is_prefix_of(state.fold(lines).document.body),
    decreases lines.len(),
{
    if lines.len() > 0 {
        let before = state.fold(lines.drop_last());
        let kind = statement_kind(lines.last());
        lemma_fold_keeps_what_was_read(state, lines.drop_last());
        lemma_step_only_appends(before, kind, lines.last());
        if state.wf() {
            lemma_step_preserves_well_formedness(before, kind, lines.last());
        }
    }
}

} // verus!
