//! The in-memory shape of a Turtle document: header items (`@prefix` and
//! `@base` declarations) and body items (a subject with its predicates, each
//! with its objects). Every type comes with a mathematical model, reached with
//! `@`, in which text is a sequence of characters.

use std::collections::VecDeque;
use vstd::prelude::*;
use vstd::string::*;

verus! {

/// The syntactic role one line of a Turtle document plays.
#[derive(Debug, Clone, Copy, PartialEq, Eq, Structural)]
pub enum StatementKind {
    /// `###  http://www.ontologyrepository.com/CommonCoreOntologies/Bent`
    Comment,
    /// `@base <http://www.ontologyrepository.com/CommonCoreOntologies/Mid/QualityOntology> .`
    BasePrefix,
    /// `@prefix rdfs:  <http://www.w3.org/2000/01/rdf-schema#> .`
    NormPrefix,
    /// `mro:BFO_0000050 rdf:type owl:ObjectProperty ;`
    PartOfPredicateListWithSubject,
    /// `cco:is_curated_in_ontology "..."^^xsd:anyURI ;`
    PartOfPredicateList,
    /// `rdf:type owl:NamedIndividual ,`
    PartOfObjectListWithPredicate,
    /// `owl:NamedIndividual ,`
    PartOfObjectList,
    /// `"..."^^xsd:anyURI ,`
    PartOfObjectListAsLiteral,
    /// `[ rdf:type owl:Restriction`, `owl:someValuesFrom cco:Velocity ]`
    PartOfCollectionList,
    /// `rdfs:label "Vermilion"@en .`
    StatementWithTerminator,
    /// A line with nothing but whitespace on it.
    Whitespace,
    /// A lone `.`
    Terminator,
    /// None of the above.
    NotATurtle,
}

/// One `@prefix` or `@base` declaration.
#[derive(Debug, Clone, PartialEq)]
pub struct TurtleHeaderItem {
    /// Whether this is the `@base` declaration.
    pub is_base: bool,
    /// Whether this declares the default (empty) namespace; never set on a base.
    pub is_empty: bool,
    /// The declared namespace, such as `skos`; absent on a base.
    pub prefix_namespace: Option<String>,
    /// The IRI in its angle brackets, such as `<http://www.w3.org/2004/02/skos/core#>`.
    pub prefix_iri: Option<String>,
    /// The line as it was read.
    pub raw_header: Option<String>,
}

/// Model of a [`TurtleHeaderItem`].
pub struct HeaderModel {
    pub is_base: bool,
    pub is_empty: bool,
    pub prefix_namespace: Option<Seq<char>>,
    pub prefix_iri: Option<Seq<char>>,
    pub raw_header: Option<Seq<char>>,
}

impl DeepView for TurtleHeaderItem {
    type V = HeaderModel;

    open spec fn deep_view(&self) -> HeaderModel {
        HeaderModel {
            is_base: self.is_base,
            is_empty: self.is_empty,
            prefix_namespace: self.prefix_namespace.deep_view(),
            prefix_iri: self.prefix_iri.deep_view(),
            raw_header: self.raw_header.deep_view(),
        }
    }
}

impl View for TurtleHeaderItem {
    type V = HeaderModel;

    open spec fn view(&self) -> HeaderModel {
        self.deep_view()
    }
}

impl TurtleHeaderItem {
    pub fn new(
        is_base: bool,
        is_empty: bool,
        prefix_namespace: Option<String>,
        prefix_iri: Option<String>,
        raw_header: Option<String>,
    ) -> (item: TurtleHeaderItem)
        ensures
            item@ == (HeaderModel {
                is_base,
                is_empty,
                prefix_namespace: prefix_namespace.deep_view(),
                prefix_iri: prefix_iri.deep_view(),
                raw_header: raw_header.deep_view(),
            }),
    {
        Self { is_base, is_empty, prefix_namespace, prefix_iri, raw_header }
    }
}

/// One object of a predicate: an IRI, a literal, or a namespaced name.
#[derive(Debug, Clone, PartialEq)]
pub struct TurtleObject {
    /// The object as it was written.
    pub raw_object: Option<String>,
    /// Whether the object is an IRI; then `object_as_iri` holds it.
    pub object_is_iri: bool,
    pub object_as_iri: Option<String>,
    /// Whether the object is a literal; then `object_as_literal` holds it.
    pub object_is_literal: bool,
    pub object_as_literal: Option<String>,
    /// For a namespaced name such as `owl:Class`, the namespace (`owl`) ...
    pub object_namespace: Option<String>,
    /// ... and the name within it (`Class`).
    pub object_namespace_value: Option<String>,
}

/// Model of a [`TurtleObject`].
pub struct ObjectModel {
    pub raw_object: Option<Seq<char>>,
    pub object_is_iri: bool,
    pub object_as_iri: Option<Seq<char>>,
    pub object_is_literal: bool,
    pub object_as_literal: Option<Seq<char>>,
    pub object_namespace: Option<Seq<char>>,
    pub object_namespace_value: Option<Seq<char>>,
}

impl ObjectModel {
    /// Whether a non-empty namespace is recorded.
    pub open spec fn is_namespaced(self) -> bool {
        self.object_namespace matches Some(ns) && ns.len() > 0
    }

    /// The object is exactly one of an IRI, a literal and a namespaced name.
    pub open spec fn wf(self) -> bool {
        &&& self.object_is_iri ==> !self.object_is_literal && !self.is_namespaced()
        &&& self.object_is_literal ==> !self.is_namespaced()
        &&& self.object_is_iri || self.object_is_literal || self.is_namespaced()
    }
}

impl DeepView for TurtleObject {
    type V = ObjectModel;

    open spec fn deep_view(&self) -> ObjectModel {
        ObjectModel {
            raw_object: self.raw_object.deep_view(),
            object_is_iri: self.object_is_iri,
            object_as_iri: self.object_as_iri.deep_view(),
            object_is_literal: self.object_is_literal,
            object_as_literal: self.object_as_literal.deep_view(),
            object_namespace: self.object_namespace.deep_view(),
            object_namespace_value: self.object_namespace_value.deep_view(),
        }
    }
}

impl View for TurtleObject {
    type V = ObjectModel;

    open spec fn view(&self) -> ObjectModel {
        self.deep_view()
    }
}

/// One predicate of a statement, with the objects it relates the subject to.
#[derive(Debug, Clone, PartialEq)]
pub struct TurtlePredicate {
    /// The predicate as it was written.
    pub raw_predicate_object: Option<String>,
    /// Whether the predicate is an IRI; then `predicate_as_iri_or_literal` holds it.
    pub predicate_is_iri: bool,
    pub predicate_as_iri_or_literal: Option<String>,
    /// Whether the predicate is a bare word such as `a`; then
    /// `predicate_as_literal` holds it.
    pub predicate_is_literal: bool,
    pub predicate_as_literal: Option<String>,
    /// For a namespaced name such as `rdf:type`, the namespace (`rdf`) ...
    pub predicate_namespace: Option<String>,
    /// ... and the name within it (`type`).
    pub predicate_namespace_value: Option<String>,
    /// The objects, in the order they were read.
    pub object: VecDeque<TurtleObject>,
}

/// Model of a [`TurtlePredicate`].
pub struct PredicateModel {
    pub raw_predicate_object: Option<Seq<char>>,
    pub predicate_is_iri: bool,
    pub predicate_as_iri_or_literal: Option<Seq<char>>,
    pub predicate_is_literal: bool,
    pub predicate_as_literal: Option<Seq<char>>,
    pub predicate_namespace: Option<Seq<char>>,
    pub predicate_namespace_value: Option<Seq<char>>,
    pub object: Seq<ObjectModel>,
}

impl PredicateModel {
    /// Whether a non-empty namespace is recorded.
    pub open spec fn is_namespaced(self) -> bool {
        self.predicate_namespace matches Some(ns) && ns.len() > 0
    }

    /// The predicate is exactly one of an IRI, a literal and a namespaced name,
    /// and so is each of its objects.
    pub open spec fn wf(self) -> bool {
        &&& self.predicate_is_iri ==> !self.predicate_is_literal && !self.is_namespaced()
        &&& self.predicate_is_literal ==> !self.is_namespaced()
        &&& self.predicate_is_iri || self.predicate_is_literal || self.is_namespaced()
        &&& forall|i: int| 0 <= i < self.object.len() ==> (#[trigger] self.object[i]).wf()
    }

    /// The same predicate with one more object at the end.
    pub open spec fn with_object(self, o: ObjectModel) -> PredicateModel {
        PredicateModel { object: self.object.push(o), ..self }
    }
}

impl DeepView for TurtlePredicate {
    type V = PredicateModel;

    open spec fn deep_view(&self) -> PredicateModel {
        PredicateModel {
            raw_predicate_object: self.raw_predicate_object.deep_view(),
            predicate_is_iri: self.predicate_is_iri,
            predicate_as_iri_or_literal: self.predicate_as_iri_or_literal.deep_view(),
            predicate_is_literal: self.predicate_is_literal,
            predicate_as_literal: self.predicate_as_literal.deep_view(),
            predicate_namespace: self.predicate_namespace.deep_view(),
            predicate_namespace_value: self.predicate_namespace_value.deep_view(),
            object: self.object.deep_view(),
        }
    }
}

impl View for TurtlePredicate {
    type V = PredicateModel;

    open spec fn view(&self) -> PredicateModel {
        self.deep_view()
    }
}

/// One statement: a subject and the predicates said of it.
#[derive(Debug, Clone, PartialEq)]
pub struct TurtleBodyItem {
    pub subject: Option<String>,
    pub predicate: VecDeque<TurtlePredicate>,
}

/// Model of a [`TurtleBodyItem`].
pub struct StatementModel {
    pub subject: Option<Seq<char>>,
    pub predicate: Seq<PredicateModel>,
}

impl StatementModel {
    /// Every predicate of the statement is well formed.
    pub open spec fn wf(self) -> bool {
        forall|i: int| 0 <= i < self.predicate.len() ==> (#[trigger] self.predicate[i]).wf()
    }

    /// The same statement with one more predicate at the end.
    pub open spec fn with_predicate(self, p: PredicateModel) -> StatementModel {
        StatementModel { predicate: self.predicate.push(p), ..self }
    }

    /// The same statement with one more object on its last predicate; unchanged
    /// when it has no predicate yet.
    pub open spec fn with_object(self, o: ObjectModel) -> StatementModel {
        if self.predicate.len() == 0 {
            self
        } else {
            StatementModel {
                predicate: self.predicate.drop_last().push(self.predicate.last().with_object(o)),
                ..self
            }
        }
    }
}

impl DeepView for TurtleBodyItem {
    type V = StatementModel;

    open spec fn deep_view(&self) -> StatementModel {
        StatementModel {
            subject: self.subject.deep_view(),
            predicate: self.predicate.deep_view(),
        }
    }
}

impl View for TurtleBodyItem {
    type V = StatementModel;

    open spec fn view(&self) -> StatementModel {
        self.deep_view()
    }
}

impl TurtleBodyItem {
    /// A statement about `subject` with no predicate yet.
    pub fn new(subject: Option<String>) -> (item: TurtleBodyItem)
        ensures
            item@ == (StatementModel { subject: subject.deep_view(), predicate: Seq::empty() }),
    {
        let item = TurtleBodyItem { subject, predicate: VecDeque::new() };
        assert(item@.predicate =~= Seq::empty());
        item
    }

    /// Adds a predicate after those the statement has.
    pub fn push_predicate(&mut self, p: TurtlePredicate)
        ensures
            final(self)@ == old(self)@.with_predicate(p@),
    {
        self.predicate.push_back(p);
        assert(self@.predicate =~= old(self)@.predicate.push(p@));
    }

    /// Adds an object to the last predicate of the statement. A statement
    /// without predicates is left as it is, and the object is dropped.
    pub fn push_object(&mut self, o: TurtleObject)
        ensures
            final(self)@ == old(self)@.with_object(o@),
    {
        match self.predicate.pop_back() {
            Some(last) => {
                let mut last = last;
                let ghost before = last@;
                last.object.push_back(o);
                assert(last@.object =~= before.object.push(o@));
                self.predicate.push_back(last);
                assert(self@.predicate =~= old(self)@.predicate.drop_last().push(
                    old(self)@.predicate.last().with_object(o@),
                ));
            },
            None => {},
        }
    }
}

/// A whole Turtle document: its declarations, then its statements, each in the
/// order they were read.
#[derive(Debug, Clone, PartialEq)]
pub struct TurtleDocument {
    pub headers: VecDeque<TurtleHeaderItem>,
    pub body: VecDeque<TurtleBodyItem>,
}

/// Model of a [`TurtleDocument`].
pub struct DocumentModel {
    pub headers: Seq<HeaderModel>,
    pub body: Seq<StatementModel>,
}

/// The text between the angle brackets of `s`, when `s` is so bracketed.
pub open spec fn unbracketed(s: Seq<char>) -> Option<Seq<char>> {
    if s.len() >= 2 && s.first() == '<' && s.last() == '>' {
        Some(s.subrange(1, s.len() - 1))
    } else {
        None
    }
}

/// The bases among the first `k` headers are among the bases of all of them.
pub proof fn lemma_filter_grows(headers: Seq<HeaderModel>, k: int)
    requires
        0 <= k <= headers.len(),
    ensures
        headers.take(k).filter(|h: HeaderModel| h.is_base).len() <= headers.filter(
            |h: HeaderModel| h.is_base,
        ).len(),
    decreases headers.len() - k,
{
    if k < headers.len() {
        reveal(Seq::filter);
        assert(headers.take(k + 1).drop_last() =~= headers.take(k));
        lemma_filter_grows(headers, k + 1);
    } else {
        assert(headers.take(k) =~= headers);
    }
}

impl DocumentModel {
    /// The document with nothing in it.
    pub open spec fn empty() -> DocumentModel {
        DocumentModel { headers: Seq::empty(), body: Seq::empty() }
    }

    /// The `@base` declarations among the headers.
    pub open spec fn bases(self) -> Seq<HeaderModel> {
        self.headers.filter(|h: HeaderModel| h.is_base)
    }

    /// At most one header is a base, and every statement is well formed.
    pub open spec fn wf(self) -> bool {
        &&& self.bases().len() <= 1
        &&& forall|i: int| 0 <= i < self.body.len() ==> (#[trigger] self.body[i]).wf()
    }

    /// The IRI of the one base declaration, without its angle brackets. There is
    /// none when the document has no base or several, or when the base carries
    /// no IRI or one that is not in angle brackets.
    pub open spec fn base_iri(self) -> Option<Seq<char>> {
        if self.bases().len() == 1 {
            match self.bases()[0].prefix_iri {
                Some(iri) => unbracketed(iri),
                None => None,
            }
        } else {
            None
        }
    }
}

impl DeepView for TurtleDocument {
    type V = DocumentModel;

    open spec fn deep_view(&self) -> DocumentModel {
        DocumentModel { headers: self.headers.deep_view(), body: self.body.deep_view() }
    }
}

impl View for TurtleDocument {
    type V = DocumentModel;

    open spec fn view(&self) -> DocumentModel {
        self.deep_view()
    }
}

impl Default for TurtleDocument {
    fn default() -> (d: TurtleDocument)
        ensures
            d@ == DocumentModel::empty(),
    {
        TurtleDocument::new()
    }
}

impl TurtleDocument {
    pub fn new() -> (d: TurtleDocument)
        ensures
            d@ == DocumentModel::empty(),
            d@.wf(),
    {
        let headers: VecDeque<TurtleHeaderItem> = VecDeque::new();
        let body: VecDeque<TurtleBodyItem> = VecDeque::new();
        let d = Self { headers, body };
        proof {
            reveal(Seq::filter);
            assert(d@.headers =~= Seq::empty());
            assert(d@.body =~= Seq::empty());
        }
        d
    }

    /// Whether the document declares a base.
    pub fn has_base(&self) -> (b: bool)
        ensures
            b == (self@.bases().len() > 0),
    {
        let n: usize = self.headers.len();
        let mut i: usize = 0;
        let ghost is_base = |h: HeaderModel| h.is_base;
        while i < n
            invariant
                i <= n,
                n == self.headers@.len(),
                is_base == |h: HeaderModel| h.is_base,
                self@.headers.take(i as int).filter(is_base).len() == 0,
            decreases n - i,
        {
            proof {
                reveal(Seq::filter);
                let next = self@.headers.take(i + 1);
                assert(next.drop_last() =~= self@.headers.take(i as int));
                lemma_filter_grows(self@.headers, i + 1);
            }
            if self.headers[i].is_base {
                return true;
            }
            i = i + 1;
        }
        proof {
            assert(self@.headers.take(n as int) =~= self@.headers);
        }
        false
    }

    /// The IRI of the base declaration, without its angle brackets:
    /// `@base <http://example.org/> .` gives `http://example.org/`.
    pub fn base_iri(&self) -> (iri: Option<String>)
        ensures
            iri.deep_view() == self@.base_iri(),
    {
        let n: usize = self.headers.len();
        let mut count: usize = 0;
        let mut first: usize = 0;
        let mut i: usize = 0;
        let ghost is_base = |h: HeaderModel| h.is_base;
        while i < n
            invariant
                i <= n,
                n == self.headers@.len(),
                is_base == |h: HeaderModel| h.is_base,
                count == self@.headers.take(i as int).filter(is_base).len(),
                count <= i,
                count >= 1 ==> first < i && self@.headers.take(i as int).filter(is_base)[0]
                    == self.headers@[first as int]@,
            decreases n - i,
        {
            proof {
                reveal(Seq::filter);
                let next = self@.headers.take(i + 1);
                assert(next.drop_last() =~= self@.headers.take(i as int));
            }
            if self.headers[i].is_base {
                if count == 0 {
                    first = i;
                }
                count = count + 1;
            }
            i = i + 1;
        }
        proof {
            assert(self@.headers.take(n as int) =~= self@.headers);
        }
        if count != 1 {
            return None;
        }
        match &self.headers[first].prefix_iri {
            Some(raw) => {
                let text: &str = raw.as_str();
                let chars = crate::loader::text::chars_of(text);
                let len: usize = chars.len();
                if len >= 2 && chars[0] == '<' && chars[len - 1] == '>' {
                    Some(String::from_str(text.substring_char(1, len - 1)))
                } else {
                    None
                }
            },
            None => None,
        }
    }
}

} // verus!
