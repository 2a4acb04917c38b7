use semantic_owl_api::{
    load_turtle_lines, parse_turtle, Accumulator, Loaded, StatementKind, TurtleBodyItem,
    TurtleDocument, TurtleHeaderItem, TurtleObject, TurtlePredicate,
};
use std::collections::VecDeque;

fn read(lines: &[&str]) -> (TurtleDocument, bool) {
    let owned: Vec<String> = lines.iter().map(|l| String::from(*l)).collect();
    let loaded = load_turtle_lines(&owned);
    (loaded.document, loaded.truncated)
}

fn finish(accumulator: Accumulator) -> (TurtleDocument, bool) {
    let loaded = accumulator.finish();
    (loaded.document, loaded.truncated)
}

fn text(s: &str) -> Option<String> {
    Some(String::from(s))
}

fn iri(raw: &str) -> TurtleObject {
    TurtleObject {
        raw_object: text(raw),
        object_is_iri: true,
        object_as_iri: text(raw),
        object_is_literal: false,
        object_as_literal: None,
        object_namespace: None,
        object_namespace_value: None,
    }
}

fn literal(raw: &str) -> TurtleObject {
    TurtleObject {
        raw_object: text(raw),
        object_is_iri: false,
        object_as_iri: None,
        object_is_literal: true,
        object_as_literal: text(raw),
        object_namespace: None,
        object_namespace_value: None,
    }
}

fn name(raw: &str, namespace: &str, value: &str) -> TurtleObject {
    TurtleObject {
        raw_object: text(raw),
        object_is_iri: false,
        object_as_iri: None,
        object_is_literal: false,
        object_as_literal: None,
        object_namespace: text(namespace),
        object_namespace_value: text(value),
    }
}

fn predicate(raw: &str, namespace: &str, value: &str, objects: Vec<TurtleObject>) -> TurtlePredicate {
    TurtlePredicate {
        raw_predicate_object: text(raw),
        predicate_is_iri: false,
        predicate_as_iri_or_literal: None,
        predicate_is_literal: false,
        predicate_as_literal: None,
        predicate_namespace: text(namespace),
        predicate_namespace_value: text(value),
        object: VecDeque::from(objects),
    }
}

fn statement(subject: Option<&str>, predicates: Vec<TurtlePredicate>) -> TurtleBodyItem {
    TurtleBodyItem { subject: subject.map(String::from), predicate: VecDeque::from(predicates) }
}

fn one_of_three(is_iri: bool, is_literal: bool, namespace: &Option<String>) -> bool {
    let named = matches!(namespace, Some(ns) if !ns.is_empty());
    (is_iri as u8) + (is_literal as u8) + (named as u8) == 1
}

fn well_formed(document: &TurtleDocument) -> bool {
    document.headers.iter().filter(|h| h.is_base).count() <= 1
        && document.body.iter().all(|s| {
            s.predicate.iter().all(|p| {
                one_of_three(p.predicate_is_iri, p.predicate_is_literal, &p.predicate_namespace)
                    && p.object.iter().all(|o| {
                        one_of_three(o.object_is_iri, o.object_is_literal, &o.object_namespace)
                    })
            })
        })
}

#[test]
fn three_lines_make_one_header_and_one_statement() {
    let (document, truncated) = read(&[
        "@prefix cco: <http://example.org/cco#> .",
        "cco:Foo rdf:type owl:Class ;",
        "rdfs:label \"Foo\" .",
    ]);
    assert!(!truncated);
    assert_eq!(document.headers.len(), 1);
    assert_eq!(
        document.headers[0],
        TurtleHeaderItem::new(
            false,
            false,
            text("cco"),
            None,
            text("@prefix cco: <http://example.org/cco#> ."),
        )
    );
    assert_eq!(document.body.len(), 1);
    assert_eq!(
        document.body[0],
        statement(
            Some("cco:Foo"),
            vec![
                predicate("rdf:type", "rdf", "type", vec![name("owl:Class", "owl", "Class")]),
                predicate("rdfs:label", "rdfs", "label", vec![literal("\"Foo\"")]),
            ],
        )
    );
    assert!(well_formed(&document));
}

#[test]
fn two_lines_leave_the_statement_open_and_out_of_the_document() {
    let (document, truncated) = read(&[
        "@prefix cco: <http://example.org/cco#> .",
        "cco:Foo rdf:type owl:Class ;",
    ]);
    assert!(truncated);
    assert_eq!(document.headers.len(), 1);
    assert_eq!(document.body.len(), 0);
}

#[test]
fn nothing_read_gives_an_empty_document() {
    let (document, truncated) = read(&[]);
    assert!(!truncated);
    assert_eq!(document, TurtleDocument::new());

    let accumulator = Accumulator::new();
    assert!(!accumulator.is_open());
    assert_eq!(finish(accumulator), (TurtleDocument::new(), false));
}

#[test]
fn base_declaration_is_recorded_and_its_iri_can_be_had() {
    let line = "@base <http://example.org/> .";
    assert_eq!(parse_turtle(line), StatementKind::BasePrefix);
    let mut accumulator = Accumulator::new();
    accumulator.accumulate(StatementKind::BasePrefix, line);
    let (document, truncated) = finish(accumulator);
    assert!(!truncated);
    assert_eq!(
        document.headers[0],
        TurtleHeaderItem::new(true, false, None, text("<http://example.org/>"), text(line))
    );
    assert_eq!(document.base_iri(), text("http://example.org/"));
}

#[test]
fn empty_namespace_is_flagged() {
    let (document, _) = read(&[
        "@prefix cco: <http://example.org/cco#> .",
        "@prefix : <http://example.org/#> .",
    ]);
    assert_eq!(document.headers.len(), 2);
    assert_eq!(document.headers[0].prefix_namespace, text("cco"));
    assert!(!document.headers[0].is_empty);
    assert_eq!(document.headers[1].prefix_namespace, text(""));
    assert!(document.headers[1].is_empty);
    assert!(!document.headers[1].is_base);
}

#[test]
fn a_second_base_is_noted_and_not_recorded() {
    let mut accumulator = Accumulator::new();
    accumulator.feed("@base <http://example.org/a> .");
    accumulator.feed("@prefix cco: <http://example.org/cco#> .");
    assert!(!accumulator.saw_second_base());
    accumulator.feed("@base <http://example.org/b> .");
    assert!(accumulator.saw_second_base());
    accumulator.feed("@prefix obo: <http://example.org/obo#> .");
    assert!(accumulator.saw_second_base());
    let loaded = accumulator.finish();
    assert!(loaded.second_base);
    assert!(!loaded.truncated);
    assert_eq!(loaded.document.headers.len(), 3);
    assert_eq!(loaded.document.base_iri(), text("http://example.org/a"));
    assert!(well_formed(&loaded.document));
}

#[test]
fn one_base_is_no_second_base() {
    let lines = vec![String::from("@base <http://example.org/a> ."), String::from("a:b c:d e:f ;")];
    let loaded = load_turtle_lines(&lines);
    assert_eq!(
        loaded,
        Loaded {
            document: TurtleDocument {
                headers: VecDeque::from(vec![TurtleHeaderItem::new(
                    true,
                    false,
                    None,
                    text("<http://example.org/a>"),
                    text("@base <http://example.org/a> ."),
                )]),
                body: VecDeque::new(),
            },
            truncated: true,
            second_base: false,
        }
    );
}

#[test]
fn malformed_declarations_are_recorded_with_absent_fields() {
    let (document, truncated) = read(&[
        "@prefix cco: <http://example.org/cco#>",
        "@base http://example.org/ .",
    ]);
    assert!(!truncated);
    assert_eq!(
        document.headers[0],
        TurtleHeaderItem::new(
            false,
            false,
            None,
            None,
            text("@prefix cco: <http://example.org/cco#>"),
        )
    );
    assert_eq!(
        document.headers[1],
        TurtleHeaderItem::new(true, false, None, None, text("@base http://example.org/ ."))
    );
    assert_eq!(document.base_iri(), None);
}

#[test]
fn declaration_with_a_tail_comment_keeps_the_line_and_reads_past_the_comment() {
    let line = "@base <http://example.org/> . # the base";
    let (document, _) = read(&[line]);
    assert_eq!(document.headers[0].raw_header, text(line));
    assert_eq!(document.headers[0].prefix_iri, text("<http://example.org/>"));
}

#[test]
fn ignored_lines_change_nothing() {
    let (document, truncated) = read(&[
        "# a comment",
        "",
        "   ",
        ".",
        "this is not turtle",
        "cco:Foo rdf:type owl:Class ;",
        "# a comment",
        "",
        ".",
        "this is not turtle",
        "rdfs:label \"Foo\" .",
    ]);
    assert!(!truncated);
    assert!(document.headers.is_empty());
    assert_eq!(document.body.len(), 1);
    assert_eq!(document.body[0].predicate.len(), 2);
}

#[test]
fn object_lists_go_to_the_last_predicate() {
    let (document, truncated) = read(&[
        "cco:Foo rdf:type owl:Class ;",
        "rdfs:subClassOf obo:BFO_0000002 ,",
        "obo:BFO_0000004 ,",
        "<http://example.org/Other> ,",
        "\"a literal\" ;",
        "cco:definition \"one\"@en ,",
        "\"two, or three\"@en ;",
        "rdfs:label \"Foo\"@en .",
    ]);
    assert!(!truncated);
    assert_eq!(document.body.len(), 1);
    assert_eq!(
        document.body[0],
        statement(
            Some("cco:Foo"),
            vec![
                predicate("rdf:type", "rdf", "type", vec![name("owl:Class", "owl", "Class")]),
                predicate(
                    "rdfs:subClassOf",
                    "rdfs",
                    "subClassOf",
                    vec![
                        name("obo:BFO_0000002", "obo", "BFO_0000002"),
                        name("obo:BFO_0000004", "obo", "BFO_0000004"),
                        iri("<http://example.org/Other>"),
                        literal("\"a literal\""),
                    ],
                ),
                predicate(
                    "cco:definition",
                    "cco",
                    "definition",
                    vec![literal("\"one\"@en"), literal("\"two, or three\"@en")],
                ),
                predicate("rdfs:label", "rdfs", "label", vec![literal("\"Foo\"@en")]),
            ],
        )
    );
    assert!(well_formed(&document));
}

#[test]
fn what_is_said_is_read_without_the_whitespace_around_it() {
    let mut accumulator = Accumulator::new();
    accumulator.accumulate(
        StatementKind::PartOfPredicateListWithSubject,
        "   cco:Foo   rdf:type \t owl:Class  ;   # opens Foo",
    );
    accumulator.accumulate(StatementKind::PartOfPredicateList, "\trdfs:label   \"Foo  Bar\"  ;");
    accumulator.accumulate(StatementKind::PartOfObjectList, "     obo:BFO_0000004 ,");
    accumulator.accumulate(StatementKind::StatementWithTerminator, "   .");
    let (document, truncated) = finish(accumulator);
    assert!(!truncated);
    assert_eq!(
        document.body,
        VecDeque::from(vec![statement(
            Some("cco:Foo"),
            vec![
                predicate("rdf:type", "rdf", "type", vec![name("owl:Class", "owl", "Class")]),
                predicate(
                    "rdfs:label",
                    "rdfs",
                    "label",
                    vec![literal("\"Foo  Bar\""), name("obo:BFO_0000004", "obo", "BFO_0000004")],
                ),
            ],
        )])
    );
}

#[test]
fn a_predicate_may_come_without_an_object() {
    let (document, _) = read(&["cco:Foo rdf:type owl:Class ;", "obo:BFO_0000004 ;", "a:b ."]);
    assert_eq!(
        document.body,
        VecDeque::from(vec![statement(
            Some("cco:Foo"),
            vec![
                predicate("rdf:type", "rdf", "type", vec![name("owl:Class", "owl", "Class")]),
                predicate("obo:BFO_0000004", "obo", "BFO_0000004", vec![name("a:b", "a", "b")]),
            ],
        )])
    );
}

#[test]
fn a_new_subject_closes_the_open_statement() {
    let (document, truncated) = read(&[
        "cco:Foo rdf:type owl:Class ;",
        "cco:Bar rdf:type owl:Class ;",
    ]);
    assert!(truncated);
    assert_eq!(
        document.body,
        VecDeque::from(vec![statement(
            Some("cco:Foo"),
            vec![predicate("rdf:type", "rdf", "type", vec![name("owl:Class", "owl", "Class")])],
        )])
    );
}

#[test]
fn a_statement_on_one_line() {
    let (document, truncated) = read(&["cco:Foo rdf:type owl:Class ."]);
    assert!(!truncated);
    assert_eq!(
        document.body,
        VecDeque::from(vec![statement(
            Some("cco:Foo"),
            vec![predicate("rdf:type", "rdf", "type", vec![name("owl:Class", "owl", "Class")])],
        )])
    );
}

#[test]
fn a_closing_line_with_no_subject_open_makes_a_statement_without_subject() {
    let (document, truncated) = read(&["rdfs:label \"Foo\" ."]);
    assert!(!truncated);
    assert_eq!(
        document.body,
        VecDeque::from(vec![statement(
            None,
            vec![predicate("rdfs:label", "rdfs", "label", vec![literal("\"Foo\"")])],
        )])
    );
}

#[test]
fn a_closing_line_may_carry_one_object_only() {
    let (document, _) = read(&[
        "cco:Foo rdf:type owl:Class ;",
        "rdfs:comment \"one\" ,",
        "\"two words\" .",
        "cco:Bar rdf:type owl:Class ;",
        "rdfs:subClassOf owl:Nothing ,",
        "owl:Thing .",
    ]);
    assert_eq!(document.body.len(), 2);
    assert_eq!(
        document.body[0],
        statement(
            Some("cco:Foo"),
            vec![
                predicate("rdf:type", "rdf", "type", vec![name("owl:Class", "owl", "Class")]),
                predicate(
                    "rdfs:comment",
                    "rdfs",
                    "comment",
                    vec![literal("\"one\""), literal("\"two words\"")],
                ),
            ],
        )
    );
    assert_eq!(
        document.body[1].predicate[1].object,
        VecDeque::from(vec![
            name("owl:Nothing", "owl", "Nothing"),
            name("owl:Thing", "owl", "Thing")
        ])
    );
}

#[test]
fn a_line_with_subject_and_comma_is_read_as_predicate_and_object() {
    let (document, _) = read(&["cco:Foo rdfs:comment \"one\" ,", "\"two\" ."]);
    assert_eq!(
        document.body,
        VecDeque::from(vec![statement(
            None,
            vec![predicate(
                "cco:Foo",
                "cco",
                "Foo",
                vec![
                    name("rdfs:comment \"one\"", "rdfs", "comment \"one\""),
                    literal("\"two\"")
                ],
            )],
        )])
    );
}

#[test]
fn a_closing_line_that_says_nothing_still_closes() {
    let mut accumulator = Accumulator::new();
    accumulator.accumulate(StatementKind::PartOfPredicateListWithSubject, "a:b c:d e:f ;");
    assert!(accumulator.is_open());
    accumulator.accumulate(StatementKind::StatementWithTerminator, " .");
    assert!(!accumulator.is_open());
    let (document, truncated) = finish(accumulator);
    assert!(!truncated);
    assert_eq!(document.body.len(), 1);
    assert_eq!(document.body[0].predicate.len(), 1);

    let mut accumulator = Accumulator::new();
    accumulator.accumulate(StatementKind::StatementWithTerminator, " .");
    assert_eq!(finish(accumulator), (TurtleDocument::new(), false));
}

#[test]
fn predicates_without_an_open_subject_open_a_statement_without_subject() {
    let (document, truncated) = read(&["rdfs:subClassOf obo:BFO_0000015 ;", "a owl:Class ."]);
    assert!(!truncated);
    assert_eq!(document.body.len(), 1);
    assert_eq!(document.body[0].subject, None);
    assert_eq!(document.body[0].predicate.len(), 2);
    let a = &document.body[0].predicate[1];
    assert!(a.predicate_is_literal);
    assert_eq!(a.predicate_as_literal, text("a"));
    assert_eq!(a.predicate_as_iri_or_literal, text("a"));
    assert_eq!(a.predicate_namespace, None);
    assert!(well_formed(&document));
}

#[test]
fn objects_without_an_open_statement_are_dropped() {
    let (document, truncated) = read(&["obo:BFO_0000004 ,", "\"a literal\"@en ,", "] ;"]);
    assert!(!truncated);
    assert_eq!(document, TurtleDocument::new());
}

#[test]
fn collection_fragments_are_kept_unread() {
    let (document, _) = read(&[
        "cco:Foo rdf:type owl:Class ;",
        "rdfs:subClassOf obo:BFO_0000015 ,",
        "[ rdf:type owl:Restriction ;",
        "owl:someValuesFrom cco:Velocity ] ;   # a restriction",
        "rdfs:label \"Foo\" .",
    ]);
    assert_eq!(document.body.len(), 1);
    let predicates = &document.body[0].predicate;
    assert_eq!(predicates.len(), 3);
    assert_eq!(
        predicates[1].object,
        VecDeque::from(vec![
            name("obo:BFO_0000015", "obo", "BFO_0000015"),
            literal("[ rdf:type owl:Restriction ;"),
            literal("owl:someValuesFrom cco:Velocity ] ;"),
        ])
    );
    assert!(well_formed(&document));
}

#[test]
fn iri_predicates_and_subjects() {
    let (document, _) = read(&[
        "<http://example.org/s> <http://example.org/p> <http://example.org/o> .",
    ]);
    let s = &document.body[0];
    assert_eq!(s.subject, text("<http://example.org/s>"));
    let p = &s.predicate[0];
    assert!(p.predicate_is_iri);
    assert!(!p.predicate_is_literal);
    assert_eq!(p.predicate_as_iri_or_literal, text("<http://example.org/p>"));
    assert_eq!(p.predicate_as_literal, None);
    assert_eq!(p.predicate_namespace, None);
    assert_eq!(p.object, VecDeque::from(vec![iri("<http://example.org/o>")]));
}

#[test]
fn names_are_cut_at_their_first_colon() {
    let (document, _) = read(&["a:b c:d:e _:f .", "x:y :z 42 ."]);
    assert_eq!(document.body[0].predicate[0].predicate_namespace, text("c"));
    assert_eq!(document.body[0].predicate[0].predicate_namespace_value, text("d:e"));
    assert_eq!(document.body[0].predicate[0].object[0], name("_:f", "_", "f"));
    let p = &document.body[1].predicate[0];
    assert!(p.predicate_is_literal);
    assert_eq!(p.predicate_as_literal, text(":z"));
    assert_eq!(p.object[0], literal("42"));
    assert!(well_formed(&document));
}

#[test]
fn the_role_given_decides_not_the_line() {
    let mut accumulator = Accumulator::new();
    accumulator.accumulate(StatementKind::Comment, "cco:Foo rdf:type owl:Class .");
    accumulator.accumulate(StatementKind::NotATurtle, "@base <http://example.org/> .");
    accumulator.accumulate(StatementKind::PartOfPredicateListWithSubject, "   ;");
    assert!(!accumulator.is_open());
    accumulator.accumulate(StatementKind::NormPrefix, "no declaration at all");
    accumulator.accumulate(StatementKind::PartOfObjectListWithPredicate, "rdf:type owl:Class");
    assert!(accumulator.is_open());
    let (document, truncated) = finish(accumulator);
    assert!(truncated);
    assert_eq!(document.body.len(), 0);
    assert_eq!(
        document.headers,
        VecDeque::from(vec![TurtleHeaderItem::new(
            false,
            false,
            None,
            None,
            text("no declaration at all")
        )])
    );
}

#[test]
fn feed_hands_back_the_role() {
    let mut accumulator = Accumulator::new();
    assert_eq!(accumulator.feed("this is not turtle"), StatementKind::NotATurtle);
    assert_eq!(
        accumulator.feed("cco:Foo rdf:type owl:Class ;"),
        StatementKind::PartOfPredicateListWithSubject
    );
    assert!(accumulator.is_open());
    assert_eq!(accumulator.feed("rdfs:label \"Foo\" . # done"), StatementKind::StatementWithTerminator);
    assert!(!accumulator.is_open());
    let (document, truncated) = finish(accumulator);
    assert!(!truncated);
    assert_eq!(document.body.len(), 1);
    assert_eq!(document.body[0].predicate[1].object[0], literal("\"Foo\""));
}

#[test]
fn earlier_headers_and_statements_stay_as_they_are() {
    let lines = [
        "@prefix cco: <http://example.org/cco#> .",
        "cco:Foo rdf:type owl:Class .",
        "@base <http://example.org/> .",
        "cco:Bar rdf:type owl:Class ;",
        "rdfs:label \"Bar\" .",
        "cco:Baz rdf:type owl:Class ;",
    ];
    let mut accumulator = Accumulator::new();
    let mut before = TurtleDocument::new();
    for line in lines {
        accumulator.feed(line);
        let mut replay = Accumulator::new();
        for earlier in lines {
            replay.feed(earlier);
            if std::ptr::eq(earlier, line) {
                break;
            }
        }
        let (now, _) = finish(replay);
        assert!(now.headers.len() >= before.headers.len());
        assert!(now.body.len() >= before.body.len());
        assert!(before.headers.iter().eq(now.headers.iter().take(before.headers.len())));
        assert!(before.body.iter().eq(now.body.iter().take(before.body.len())));
        assert!(well_formed(&now));
        before = now;
    }
    assert_eq!(before.headers.len(), 2);
    assert_eq!(before.body.len(), 2);
    assert_eq!(finish(accumulator), (before, true));
}
