//! End-to-end checks of the OBO to OWL translation: context construction,
//! identifier resolution, the expression builder's precedence, the frame
//! translators, and the document pipeline.

use fastobo_owl::ast::CreationDate;
use fastobo_owl::ast::EntityFrame;
use fastobo_owl::ast::HeaderClause;
use fastobo_owl::ast::Ident;
use fastobo_owl::ast::Import;
use fastobo_owl::ast::IsoDate;
use fastobo_owl::ast::IsoDateTime;
use fastobo_owl::ast::IsoTime;
use fastobo_owl::ast::IsoTimezone;
use fastobo_owl::ast::Line;
use fastobo_owl::ast::NaiveDateTime;
use fastobo_owl::ast::OboDoc;
use fastobo_owl::ast::Qualifier;
use fastobo_owl::ast::TermClause;
use fastobo_owl::ast::TermFrame;
use fastobo_owl::ast::TypedefClause;
use fastobo_owl::ast::TypedefFrame;
use fastobo_owl::ast::Xref;
use fastobo_owl::context::Context;
use fastobo_owl::error::Error;
use fastobo_owl::owl::AnnotatedComponent;
use fastobo_owl::owl::Annotation;
use fastobo_owl::owl::AnnotationValue;
use fastobo_owl::owl::ClassExpression;
use fastobo_owl::owl::Component;
use fastobo_owl::owl::Literal;

const OBO: &str = "http://purl.obolibrary.org/obo/";

fn pid(prefix: &str, local: &str) -> Ident {
    Ident::Prefixed { prefix: prefix.to_owned(), local: local.to_owned() }
}

fn uid(local: &str) -> Ident {
    Ident::Unprefixed { local: local.to_owned() }
}

fn line<C>(clause: C) -> Line<C> {
    Line { clause, qualifiers: vec![] }
}

fn qline<C>(clause: C, qualifiers: Vec<Qualifier>) -> Line<C> {
    Line { clause, qualifiers }
}

fn qual(key: &str, value: &str) -> Qualifier {
    Qualifier { key: uid(key), value: value.to_owned() }
}

fn go_doc(entities: Vec<EntityFrame>) -> OboDoc {
    OboDoc {
        header: vec![HeaderClause::Ontology("go".to_owned())],
        entities,
    }
}

fn go_context() -> Context {
    Context::from_obodoc(&go_doc(vec![])).expect("context")
}

fn simple(text: &str) -> AnnotationValue {
    AnnotationValue::Literal(Literal::Simple { literal: text.to_owned() })
}

fn count_matching(components: &[AnnotatedComponent], pred: impl Fn(&Component) -> bool) -> usize {
    components.iter().filter(|c| pred(&c.component)).count()
}

#[test]
fn missing_ontology_clause() {
    let doc = OboDoc::new();
    let res = Context::from_obodoc(&doc);
    assert!(matches!(res, Err(Error::MissingClause { .. })));
}

#[test]
fn duplicate_ontology_clause() {
    let mut doc = OboDoc::new();
    doc.header.push(HeaderClause::Ontology("test1".to_owned()));
    doc.header.push(HeaderClause::Ontology("test2".to_owned()));

    let res = Context::from_obodoc(&doc);
    assert!(matches!(res, Err(Error::DuplicateClauses { .. })));
}

#[test]
fn resolve_prefixed_known_idspace() {
    let mut doc = go_doc(vec![]);
    doc.header.push(HeaderClause::Idspace(
        "Wikipedia".to_owned(),
        "http://en.wikipedia.org/wiki/".to_owned(),
        None,
    ));
    let ctx = Context::from_obodoc(&doc).unwrap();
    assert_eq!(
        ctx.resolve(&pid("Wikipedia", "Insect")),
        "http://en.wikipedia.org/wiki/Insect"
    );
}

#[test]
fn resolve_prefixed_unknown_idspace_falls_back() {
    let ctx = go_context();
    assert_eq!(
        ctx.resolve(&pid("GO", "0000001")),
        format!("{}GO_0000001", OBO)
    );
}

#[test]
fn resolve_unprefixed_under_ontology_iri() {
    let ctx = go_context();
    assert_eq!(ctx.resolve(&uid("part_of")), format!("{}go#part_of", OBO));
}

#[test]
fn resolve_url_unchanged() {
    let ctx = go_context();
    let u = Ident::Url { url: "http://example.com/x".to_owned() };
    assert_eq!(ctx.resolve(&u), "http://example.com/x");
}

#[test]
fn serialized_identifier_is_escaped() {
    let id = Ident::Prefixed { prefix: "G O".to_owned(), local: "a:b".to_owned() };
    assert_eq!(id.serialized(), "G\\ O:a\\:b");
    assert_eq!(uid("plain").serialized(), "plain");
}

#[test]
fn naive_datetime_rendering() {
    let dt = NaiveDateTime { year: 2019, month: 5, day: 8, hour: 13, minute: 2 };
    assert_eq!(dt.to_xsd_datetime(), "2019-05-08T13:02:00");
}

#[test]
fn iso_datetime_rendering() {
    let dt = IsoDateTime {
        date: IsoDate { year: 2017, month: 1, day: 24 },
        time: IsoTime { hour: 14, minute: 41, second: 3, timezone: Some(IsoTimezone::Utc) },
    };
    assert_eq!(dt.to_xsd_datetime(), "2017-01-24T14:41:03Z");
    let offset = IsoDateTime {
        date: IsoDate { year: 2017, month: 1, day: 24 },
        time: IsoTime {
            hour: 14,
            minute: 41,
            second: 3,
            timezone: Some(IsoTimezone::Plus(2, 30)),
        },
    };
    assert_eq!(offset.to_xsd_datetime(), "2017-01-24T14:41:03+02:30");
    assert_eq!(IsoDate { year: 2021, month: 1, day: 2 }.to_xsd_date(), "2021-01-02");
}

#[test]
fn builder_cardinality_zero_is_complement() {
    let ctx = go_context();
    let ce = ctx
        .rel_class_expression(&vec![qual("cardinality", "0"), qual("all_only", "true")], &uid("r"), &uid("c"))
        .unwrap();
    let r = ctx.resolve(&uid("r"));
    let c = ctx.resolve(&uid("c"));
    assert_eq!(
        ce,
        ClassExpression::ObjectAllValuesFrom {
            ope: r,
            bce: Box::new(ClassExpression::ObjectComplementOf(Box::new(
                ClassExpression::Class(c)
            ))),
        }
    );
}

#[test]
fn builder_cardinality_exact() {
    let ctx = go_context();
    let ce = ctx
        .rel_class_expression(&vec![qual("cardinality", "+2")], &uid("r"), &uid("c"))
        .unwrap();
    assert_eq!(
        ce,
        ClassExpression::ObjectExactCardinality {
            n: 2,
            ope: ctx.resolve(&uid("r")),
            bce: Box::new(ClassExpression::Class(ctx.resolve(&uid("c")))),
        }
    );
}

#[test]
fn builder_min_and_max_is_intersection() {
    let ctx = go_context();
    let ce = ctx
        .rel_class_expression(
            &vec![qual("minCardinality", "1"), qual("maxCardinality", "3")],
            &uid("r"),
            &uid("c"),
        )
        .unwrap();
    let r = ctx.resolve(&uid("r"));
    let c = ctx.resolve(&uid("c"));
    assert_eq!(
        ce,
        ClassExpression::ObjectIntersectionOf(vec![
            ClassExpression::ObjectMinCardinality {
                n: 1,
                ope: r.clone(),
                bce: Box::new(ClassExpression::Class(c.clone())),
            },
            ClassExpression::ObjectMaxCardinality {
                n: 3,
                ope: r,
                bce: Box::new(ClassExpression::Class(c)),
            },
        ])
    );
}

#[test]
fn builder_min_alone_and_max_alone() {
    let ctx = go_context();
    let r = ctx.resolve(&uid("r"));
    let c = ctx.resolve(&uid("c"));
    let lo = ctx
        .rel_class_expression(&vec![qual("minCardinality", "1")], &uid("r"), &uid("c"))
        .unwrap();
    assert_eq!(
        lo,
        ClassExpression::ObjectMinCardinality {
            n: 1,
            ope: r.clone(),
            bce: Box::new(ClassExpression::Class(c.clone())),
        }
    );
    let hi = ctx
        .rel_class_expression(&vec![qual("maxCardinality", "3")], &uid("r"), &uid("c"))
        .unwrap();
    assert_eq!(
        hi,
        ClassExpression::ObjectMaxCardinality {
            n: 3,
            ope: r,
            bce: Box::new(ClassExpression::ObjectComplementOf(Box::new(
                ClassExpression::Class(c)
            ))),
        }
    );
}

#[test]
fn builder_all_only_and_all_some() {
    let ctx = go_context();
    let r = ctx.resolve(&uid("r"));
    let c = ctx.resolve(&uid("c"));
    let only = ctx
        .rel_class_expression(&vec![qual("all_only", "true")], &uid("r"), &uid("c"))
        .unwrap();
    assert_eq!(
        only,
        ClassExpression::ObjectAllValuesFrom {
            ope: r.clone(),
            bce: Box::new(ClassExpression::Class(c.clone())),
        }
    );
    let both = ctx
        .rel_class_expression(
            &vec![qual("all_some", "true"), qual("all_only", "true")],
            &uid("r"),
            &uid("c"),
        )
        .unwrap();
    assert_eq!(
        both,
        ClassExpression::ObjectIntersectionOf(vec![
            ClassExpression::ObjectSomeValuesFrom {
                ope: r.clone(),
                bce: Box::new(ClassExpression::Class(c.clone())),
            },
            ClassExpression::ObjectAllValuesFrom {
                ope: r,
                bce: Box::new(ClassExpression::Class(c)),
            },
        ])
    );
}

#[test]
fn builder_default_and_class_level() {
    let typedef = TypedefFrame {
        id: uid("has_part"),
        lines: vec![line(TypedefClause::IsClassLevel(true))],
    };
    let doc = go_doc(vec![EntityFrame::Typedef(typedef)]);
    let ctx = Context::from_obodoc(&doc).unwrap();
    let r = ctx.resolve(&uid("has_part"));
    let c = ctx.resolve(&uid("c"));
    let has_value = ctx
        .rel_class_expression(&vec![], &uid("has_part"), &uid("c"))
        .unwrap();
    assert_eq!(
        has_value,
        ClassExpression::ObjectHasValue { ope: r, i: c.clone() }
    );
    let plain = ctx
        .rel_class_expression(&vec![], &uid("other"), &uid("c"))
        .unwrap();
    assert_eq!(
        plain,
        ClassExpression::ObjectSomeValuesFrom {
            ope: ctx.resolve(&uid("other")),
            bce: Box::new(ClassExpression::Class(c)),
        }
    );
}

#[test]
fn builder_invalid_cardinality_is_reported() {
    let ctx = go_context();
    let res = ctx.rel_class_expression(&vec![qual("cardinality", "abc")], &uid("r"), &uid("c"));
    match res {
        Err(Error::InvalidQualifierValue { key, value }) => {
            assert_eq!(key, "cardinality");
            assert_eq!(value, "abc");
        }
        other => panic!("expected a qualifier value error, got {:?}", other),
    }
}

#[test]
fn end_to_end_term_frame() {
    let term = TermFrame {
        id: pid("GO", "0000001"),
        lines: vec![
            line(TermClause::Name("test term".to_owned())),
            line(TermClause::IsA(pid("GO", "0000002"))),
        ],
    };
    let doc = go_doc(vec![EntityFrame::Term(term)]);
    let ont = doc.into_owl().unwrap();
    let cls1 = format!("{}GO_0000001", OBO);
    let cls2 = format!("{}GO_0000002", OBO);

    let id_count = count_matching(&ont.components, |c| {
        matches!(c, Component::OntologyID { iri: Some(iri), .. } if iri == &format!("{}go.owl", OBO))
    });
    assert_eq!(id_count, 1);
    assert_eq!(
        count_matching(&ont.components, |c| c == &Component::DeclareClass(cls1.clone())),
        1
    );
    let label = Component::AnnotationAssertion {
        subject: cls1.clone(),
        ann: Annotation {
            ap: "http://www.w3.org/2000/01/rdf-schema#label".to_owned(),
            av: simple("test term"),
        },
    };
    assert_eq!(count_matching(&ont.components, |c| c == &label), 1);
    let sub = Component::SubClassOf {
        sub: ClassExpression::Class(cls1),
        sup: ClassExpression::Class(cls2),
    };
    assert_eq!(count_matching(&ont.components, |c| c == &sub), 1);
}

#[test]
fn class_declared_and_identified_once() {
    let term = TermFrame {
        id: pid("GO", "0000001"),
        lines: vec![
            line(TermClause::Name("a".to_owned())),
            line(TermClause::Name("a".to_owned())),
        ],
    };
    let doc = go_doc(vec![EntityFrame::Term(term)]);
    let ont = doc.into_owl().unwrap();
    let cls = format!("{}GO_0000001", OBO);
    assert_eq!(
        count_matching(&ont.components, |c| c == &Component::DeclareClass(cls.clone())),
        1
    );
    let record = Component::AnnotationAssertion {
        subject: cls,
        ann: Annotation {
            ap: "http://www.geneontology.org/formats/oboInOwl#id".to_owned(),
            av: simple("GO:0000001"),
        },
    };
    assert_eq!(count_matching(&ont.components, |c| c == &record), 1);
}

#[test]
fn intersection_clauses_merge_into_one_axiom() {
    let term = TermFrame {
        id: pid("TST", "001"),
        lines: vec![
            line(TermClause::IntersectionOf(None, pid("TST", "002"))),
            line(TermClause::IntersectionOf(None, pid("TST", "003"))),
        ],
    };
    let doc = go_doc(vec![EntityFrame::Term(term)]);
    let ont = doc.into_owl().unwrap();
    let this = format!("{}TST_001", OBO);
    let a = format!("{}TST_002", OBO);
    let b = format!("{}TST_003", OBO);
    let merged = Component::EquivalentClasses(vec![
        ClassExpression::Class(this),
        ClassExpression::ObjectIntersectionOf(vec![
            ClassExpression::Class(a),
            ClassExpression::Class(b),
        ]),
    ]);
    assert_eq!(count_matching(&ont.components, |c| c == &merged), 1);
    assert_eq!(
        count_matching(&ont.components, |c| matches!(c, Component::EquivalentClasses(_))),
        1
    );
}

#[test]
fn metadata_typedef_is_annotation_property() {
    let typedef = TypedefFrame {
        id: uid("married_to"),
        lines: vec![
            line(TypedefClause::IsMetadataTag(true)),
            line(TypedefClause::IsA(uid("some_parent"))),
        ],
    };
    let doc = go_doc(vec![EntityFrame::Typedef(typedef)]);
    let ont = doc.into_owl().unwrap();
    let rel = format!("{}go#married_to", OBO);
    let parent = format!("{}go#some_parent", OBO);
    assert_eq!(
        count_matching(&ont.components, |c| {
            c == &Component::DeclareAnnotationProperty(rel.clone())
        }),
        1
    );
    assert_eq!(
        count_matching(&ont.components, |c| {
            matches!(c, Component::DeclareObjectProperty(iri) if iri == &rel)
        }),
        0
    );
    let sub = Component::SubAnnotationPropertyOf { sub: rel, sup: parent };
    assert_eq!(count_matching(&ont.components, |c| c == &sub), 1);
    assert_eq!(
        count_matching(&ont.components, |c| matches!(c, Component::SubObjectPropertyOf { .. })),
        0
    );
}

#[test]
fn object_typedef_is_object_property() {
    let typedef = TypedefFrame {
        id: uid("part_of"),
        lines: vec![
            line(TypedefClause::IsTransitive(true)),
            line(TypedefClause::IsA(uid("related_to"))),
        ],
    };
    let doc = go_doc(vec![EntityFrame::Typedef(typedef)]);
    let ont = doc.into_owl().unwrap();
    let rel = format!("{}go#part_of", OBO);
    assert_eq!(
        count_matching(&ont.components, |c| {
            c == &Component::DeclareObjectProperty(rel.clone())
        }),
        1
    );
    assert_eq!(
        count_matching(&ont.components, |c| {
            c == &Component::TransitiveObjectProperty(rel.clone())
        }),
        1
    );
    assert_eq!(
        count_matching(&ont.components, |c| matches!(c, Component::SubObjectPropertyOf { .. })),
        1
    );
}

#[test]
fn header_version_iri_and_forced_import() {
    let mut doc = go_doc(vec![]);
    doc.header.push(HeaderClause::DataVersion("2024-01-01".to_owned()));
    let ont = doc.into_owl().unwrap();
    let expected = Component::OntologyID {
        iri: Some(format!("{}go.owl", OBO)),
        viri: Some(format!("{}go/2024-01-01/go.owl", OBO)),
    };
    assert_eq!(count_matching(&ont.components, |c| c == &expected), 1);
    let forced = Component::Import("http://www.geneontology.org/formats/oboInOwl".to_owned());
    assert_eq!(count_matching(&ont.components, |c| c == &forced), 1);
}

#[test]
fn duplicate_data_version_drops_version_iri() {
    let mut doc = go_doc(vec![]);
    doc.header.push(HeaderClause::DataVersion("1".to_owned()));
    doc.header.push(HeaderClause::DataVersion("2".to_owned()));
    let ont = doc.into_owl().unwrap();
    let expected = Component::OntologyID { iri: Some(format!("{}go.owl", OBO)), viri: None };
    assert_eq!(count_matching(&ont.components, |c| c == &expected), 1);
}

#[test]
fn abbreviated_import_expands() {
    let mut doc = go_doc(vec![]);
    doc.header.push(HeaderClause::Import(Import::Abbreviated(uid("ro"))));
    let ont = doc.into_owl().unwrap();
    let expected = Component::Import(format!("{}ro.owl", OBO));
    assert_eq!(count_matching(&ont.components, |c| c == &expected), 1);
}

#[test]
fn subsetdef_declares_annotation_property() {
    let mut doc = go_doc(vec![]);
    doc.header.push(HeaderClause::Subsetdef(
        uid("goslim_plant"),
        "Plant GO slim".to_owned(),
    ));
    let ont = doc.into_owl().unwrap();
    let iri = format!("{}go#goslim_plant", OBO);
    assert_eq!(
        count_matching(&ont.components, |c| {
            c == &Component::DeclareAnnotationProperty(iri.clone())
        }),
        1
    );
    let sub = Component::SubAnnotationPropertyOf {
        sub: iri.clone(),
        sup: "http://www.geneontology.org/formats/oboInOwl#SubsetProperty".to_owned(),
    };
    assert_eq!(count_matching(&ont.components, |c| c == &sub), 1);
}

#[test]
fn owl_axioms_text_is_joined() {
    let mut doc = go_doc(vec![]);
    doc.header.push(HeaderClause::OwlAxioms("Declaration(Class(<a>))".to_owned()));
    doc.header.push(HeaderClause::OwlAxioms("Declaration(Class(<b>))".to_owned()));
    let ont = doc.into_owl().unwrap();
    assert_eq!(ont.owl_axioms, "Declaration(Class(<a>))\nDeclaration(Class(<b>))");
}

#[test]
fn qualifiers_annotate_relationship_axioms() {
    let term = TermFrame {
        id: pid("TST", "001"),
        lines: vec![qline(
            TermClause::Relationship(uid("part_of"), pid("TST", "002")),
            vec![qual("comment", "why"), qual("all_some", "true")],
        )],
    };
    let doc = go_doc(vec![EntityFrame::Term(term)]);
    let ont = doc.into_owl().unwrap();
    let found = ont
        .components
        .iter()
        .find(|c| matches!(c.component, Component::SubClassOf { .. }))
        .expect("a subclass axiom");
    assert_eq!(
        found.ann,
        vec![Annotation {
            ap: format!("{}go#comment", OBO),
            av: simple("why"),
        }]
    );
}

#[test]
fn xref_description_becomes_label_annotation() {
    let term = TermFrame {
        id: pid("TST", "001"),
        lines: vec![line(TermClause::Xref(Xref {
            id: pid("PMID", "1"),
            description: Some("a source".to_owned()),
        }))],
    };
    let doc = go_doc(vec![EntityFrame::Term(term)]);
    let ont = doc.into_owl().unwrap();
    let found = ont
        .components
        .iter()
        .find(|c| {
            matches!(
                &c.component,
                Component::AnnotationAssertion { ann, .. }
                    if ann.ap == "http://www.geneontology.org/formats/oboInOwl#hasDbXref"
            )
        })
        .expect("an xref assertion");
    assert!(matches!(
        &found.component,
        Component::AnnotationAssertion { ann, .. }
            if ann.av == simple("PMID:1")
    ));
    assert_eq!(
        found.ann,
        vec![Annotation {
            ap: "http://www.w3.org/2000/01/rdf-schema#label".to_owned(),
            av: simple("a source"),
        }]
    );
}

#[test]
fn obsolete_term_carries_boolean_literal() {
    let term = TermFrame {
        id: pid("TST", "001"),
        lines: vec![line(TermClause::IsObsolete(true))],
    };
    let doc = go_doc(vec![EntityFrame::Term(term)]);
    let ont = doc.into_owl().unwrap();
    let expected = Component::AnnotationAssertion {
        subject: format!("{}TST_001", OBO),
        ann: Annotation {
            ap: "http://www.w3.org/2002/07/owl#deprecated".to_owned(),
            av: AnnotationValue::Literal(Literal::Datatype {
                literal: "true".to_owned(),
                datatype_iri: "http://www.w3.org/2001/XMLSchema#boolean".to_owned(),
            }),
        },
    };
    assert_eq!(count_matching(&ont.components, |c| c == &expected), 1);
}

#[test]
fn creation_date_uses_date_datatype() {
    let term = TermFrame {
        id: pid("TST", "001"),
        lines: vec![line(TermClause::CreationDate(CreationDate::Date(IsoDate {
            year: 2021,
            month: 3,
            day: 1,
        })))],
    };
    let doc = go_doc(vec![EntityFrame::Term(term)]);
    let ont = doc.into_owl().unwrap();
    let expected = Component::AnnotationAssertion {
        subject: format!("{}TST_001", OBO),
        ann: Annotation {
            ap: "http://purl.org/dc/elements/1.1/date".to_owned(),
            av: AnnotationValue::Literal(Literal::Datatype {
                literal: "2021-03-01".to_owned(),
                datatype_iri: "http://www.w3.org/2001/XMLSchema#date".to_owned(),
            }),
        },
    };
    assert_eq!(count_matching(&ont.components, |c| c == &expected), 1);
}

#[test]
fn instance_frames_are_dropped() {
    let doc = go_doc(vec![EntityFrame::Instance(fastobo_owl::ast::InstanceFrame {
        id: pid("TST", "001"),
    })]);
    let ont = doc.into_owl().unwrap();
    assert_eq!(
        count_matching(&ont.components, |c| matches!(c, Component::DeclareClass(_))),
        0
    );
}

#[test]
fn metadata_relationship_on_terms_is_annotation() {
    let typedef = TypedefFrame {
        id: uid("note"),
        lines: vec![line(TypedefClause::IsMetadataTag(true))],
    };
    let term = TermFrame {
        id: pid("TST", "001"),
        lines: vec![line(TermClause::Relationship(uid("note"), pid("TST", "002")))],
    };
    let doc = go_doc(vec![EntityFrame::Typedef(typedef), EntityFrame::Term(term)]);
    let ont = doc.into_owl().unwrap();
    let expected = Component::AnnotationAssertion {
        subject: format!("{}TST_001", OBO),
        ann: Annotation {
            ap: format!("{}go#note", OBO),
            av: AnnotationValue::Iri(format!("{}TST_002", OBO)),
        },
    };
    assert_eq!(count_matching(&ont.components, |c| c == &expected), 1);
    assert_eq!(
        count_matching(&ont.components, |c| matches!(c, Component::SubClassOf { .. })),
        0
    );
}

#[test]
fn import_data_gathers_imports_and_metadata_tags() {
    let typedef = TypedefFrame {
        id: uid("note"),
        lines: vec![line(TypedefClause::IsMetadataTag(true))],
    };
    let mut doc = go_doc(vec![EntityFrame::Typedef(typedef)]);
    doc.header.push(HeaderClause::Import(Import::Abbreviated(uid("ro"))));
    let data = fastobo_owl::imports::ImportData::from_doc(&doc).unwrap();
    assert_eq!(data.imports, vec![Import::Abbreviated(uid("ro"))]);
    assert_eq!(data.annotation_properties, vec![format!("{}go#note", OBO)]);

    let provider = fastobo_owl::imports::FoundryProvider::new();
    assert_eq!(
        provider.import_request(&Import::Abbreviated(uid("ro"))),
        format!("{}ro.obo", OBO)
    );
    assert_eq!(
        provider.import_request(&Import::Url("http://example.com/a.obo".to_owned())),
        "http://example.com/a.obo"
    );
}

#[test]
fn prefix_mapping_expands_curies() {
    let mapping = fastobo_owl::prefixes::obo_prefixes();
    let curie = curie::Curie::new(Some("xsd"), "string");
    assert_eq!(
        mapping.expand_curie(&curie),
        Ok("http://www.w3.org/2001/XMLSchema#string".to_owned())
    );

    let mut doc = go_doc(vec![]);
    doc.header.push(HeaderClause::Idspace(
        "Wikipedia".to_owned(),
        "http://en.wikipedia.org/wiki/".to_owned(),
        None,
    ));
    let with_idspace = doc.prefixes();
    let wiki = curie::Curie::new(Some("Wikipedia"), "Insect");
    assert_eq!(
        with_idspace.expand_curie(&wiki),
        Ok("http://en.wikipedia.org/wiki/Insect".to_owned())
    );
}

#[test]
fn synonym_scope_type_and_xrefs() {
    let term = TermFrame {
        id: pid("TST", "001"),
        lines: vec![line(TermClause::Synonym(fastobo_owl::ast::Synonym {
            description: "other name".to_owned(),
            scope: fastobo_owl::ast::SynonymScope::Exact,
            ty: Some(uid("systematic")),
            xrefs: vec![Xref { id: pid("PMID", "2"), description: None }],
        }))],
    };
    let doc = go_doc(vec![EntityFrame::Term(term)]);
    let ont = doc.into_owl().unwrap();
    let found = ont
        .components
        .iter()
        .find(|c| {
            matches!(
                &c.component,
                Component::AnnotationAssertion { ann, .. }
                    if ann.ap == "http://www.geneontology.org/formats/oboInOwl#hasExactSynonym"
            )
        })
        .expect("a synonym assertion");
    assert!(matches!(
        &found.component,
        Component::AnnotationAssertion { ann, .. } if ann.av == simple("other name")
    ));
    assert_eq!(
        found.ann,
        vec![
            Annotation {
                ap: "http://www.geneontology.org/formats/oboInOwl#hasDbXref".to_owned(),
                av: simple("PMID:2"),
            },
            Annotation {
                ap: "http://www.geneontology.org/formats/oboInOwl#hasSynonymType".to_owned(),
                av: AnnotationValue::Iri(format!("{}go#systematic", OBO)),
            },
        ]
    );
}

#[test]
fn property_value_with_string_datatype_is_simple() {
    let term = TermFrame {
        id: pid("TST", "001"),
        lines: vec![
            line(TermClause::PropertyValue(fastobo_owl::ast::PropertyValue::Literal {
                property: uid("seeAlso"),
                literal: "hello".to_owned(),
                datatype: pid("xsd", "string"),
            })),
            line(TermClause::PropertyValue(fastobo_owl::ast::PropertyValue::Literal {
                property: uid("count"),
                literal: "4".to_owned(),
                datatype: pid("xsd", "integer"),
            })),
        ],
    };
    let doc = go_doc(vec![EntityFrame::Term(term)]);
    let ont = doc.into_owl().unwrap();
    let see_also = Component::AnnotationAssertion {
        subject: format!("{}TST_001", OBO),
        ann: Annotation { ap: format!("{}go#seeAlso", OBO), av: simple("hello") },
    };
    assert_eq!(count_matching(&ont.components, |c| c == &see_also), 1);
    let count = Component::AnnotationAssertion {
        subject: format!("{}TST_001", OBO),
        ann: Annotation {
            ap: format!("{}go#count", OBO),
            av: AnnotationValue::Literal(Literal::Datatype {
                literal: "4".to_owned(),
                datatype_iri: "http://www.w3.org/2001/XMLSchema#integer".to_owned(),
            }),
        },
    };
    assert_eq!(count_matching(&ont.components, |c| c == &count), 1);
}

#[test]
fn invalid_ontology_iri_is_syntax_error() {
    let mut doc = OboDoc::new();
    doc.header.push(HeaderClause::Ontology("go ontology".to_owned()));
    match Context::from_obodoc(&doc) {
        Err(Error::Syntax { value }) => {
            assert_eq!(value, format!("{}go ontology", OBO));
        }
        Err(other) => panic!("expected a syntax error, got {:?}", other),
        Ok(_) => panic!("expected a syntax error, got a context"),
    }
    assert!(matches!(doc.into_owl(), Err(Error::Syntax { .. })));
}

#[test]
fn metadata_equivalent_to_is_mutual_subsumption() {
    let typedef = TypedefFrame {
        id: uid("note"),
        lines: vec![
            line(TypedefClause::IsMetadataTag(true)),
            line(TypedefClause::EquivalentTo(uid("remark"))),
        ],
    };
    let doc = go_doc(vec![EntityFrame::Typedef(typedef)]);
    let ont = doc.into_owl().unwrap();
    let this = format!("{}go#note", OBO);
    let other = format!("{}go#remark", OBO);
    let forward = Component::SubAnnotationPropertyOf { sub: this.clone(), sup: other.clone() };
    let backward = Component::SubAnnotationPropertyOf { sub: other, sup: this };
    assert_eq!(count_matching(&ont.components, |c| c == &forward), 1);
    assert_eq!(count_matching(&ont.components, |c| c == &backward), 1);
    assert_eq!(
        count_matching(&ont.components, |c| {
            matches!(c, Component::EquivalentObjectProperties(_))
        }),
        0
    );
}

#[test]
fn object_equivalent_to_is_property_equivalence() {
    let typedef = TypedefFrame {
        id: uid("part_of"),
        lines: vec![line(TypedefClause::EquivalentTo(uid("piece_of")))],
    };
    let doc = go_doc(vec![EntityFrame::Typedef(typedef)]);
    let ont = doc.into_owl().unwrap();
    let expected = Component::EquivalentObjectProperties(vec![
        format!("{}go#part_of", OBO),
        format!("{}go#piece_of", OBO),
    ]);
    assert_eq!(count_matching(&ont.components, |c| c == &expected), 1);
}

#[test]
fn disjoint_over_is_recorded() {
    let typedef = TypedefFrame {
        id: uid("part_of"),
        lines: vec![line(TypedefClause::DisjointOver(uid("overlaps")))],
    };
    let doc = go_doc(vec![EntityFrame::Typedef(typedef)]);
    let ont = doc.into_owl().unwrap();
    let expected = Component::AnnotationAssertion {
        subject: format!("{}go#part_of", OBO),
        ann: Annotation {
            ap: "http://www.geneontology.org/formats/oboInOwl#disjoint_over".to_owned(),
            av: AnnotationValue::Iri(format!("{}go#overlaps", OBO)),
        },
    };
    assert_eq!(count_matching(&ont.components, |c| c == &expected), 1);
}
