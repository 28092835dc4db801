//! The header frame translator: most header clauses become ontology
//! annotations; `subsetdef` and `synonymtypedef` declare annotation
//! properties; `import` adds an import; `idspace`, `ontology` and
//! `data-version` feed the context and the ontology identifier instead of
//! producing axioms; the `treat-xrefs` macros must have been expanded before
//! translation and produce nothing. The text of `owl-axioms` clauses is
//! gathered, newline-joined, for an OWL functional-syntax reader to splice
//! in.

use vstd::prelude::*;

use crate::ast::HeaderClause;
use crate::ast::Import;
use crate::ast::id_serialized;
use crate::ast::xsd_naive_datetime_chars;
use crate::constants::ap_auto_generated_by;
use crate::constants::ap_auto_generated_by_str;
use crate::constants::ap_has_date;
use crate::constants::ap_has_date_str;
use crate::constants::ap_has_default_namespace;
use crate::constants::ap_has_default_namespace_str;
use crate::constants::ap_has_obo_format_version;
use crate::constants::ap_has_obo_format_version_str;
use crate::constants::ap_has_scope;
use crate::constants::ap_has_scope_str;
use crate::constants::ap_namespace_id_rule;
use crate::constants::ap_namespace_id_rule_str;
use crate::constants::ap_saved_by;
use crate::constants::ap_saved_by_str;
use crate::constants::ap_subset_property;
use crate::constants::ap_subset_property_str;
use crate::constants::ap_synonym_type_property;
use crate::constants::ap_synonym_type_property_str;
use crate::constants::rdfs_comment;
use crate::constants::rdfs_comment_str;
use crate::constants::rdfs_label;
use crate::constants::rdfs_label_str;
use crate::constants::uri_obo;
use crate::constants::uri_obo_str;
use crate::constants::xsd_datetime;
use crate::constants::xsd_datetime_str;
use crate::context::Context;
use crate::context::CtxView;
use crate::context::resolve_ident;
use crate::owl::AnnotatedComponent;
use crate::owl::AnnotatedComponentView;
use crate::owl::Annotation;
use crate::owl::AnnotationValue;
use crate::owl::AnnotationValueView;
use crate::owl::AnnotationView;
use crate::owl::Component;
use crate::owl::ComponentView;
use crate::owl::anns_view;
use crate::owl::comps_view;
use crate::values::ann_of;
use crate::values::assertion;
use crate::values::mk_assertion;
use crate::values::mk_simple;
use crate::values::mk_typed;
use crate::values::plain;
use crate::values::property_value_annotation;
use crate::values::scope_property;
use crate::values::simple_lit;
use crate::values::translate_property_value;
use crate::values::typed_lit;
use crate::strings::concat3;

verus! {

broadcast use vstd::std_specs::vec::group_vec_axioms;

/// An ontology annotation carrying no axiom annotations.
pub open spec fn ont_ann(ap: Seq<char>, av: AnnotationValueView) -> AnnotatedComponentView {
    plain(ComponentView::OntologyAnnotation(ann_of(ap, av)))
}

/// The IRI an import clause denotes: a URL as it stands, an abbreviated
/// name expanded under the OBO Foundry convention.
pub open spec fn import_iri(imp: Import) -> Seq<char> {
    match imp {
        Import::Url(u) => u@,
        Import::Abbreviated(id) => uri_obo() + id_serialized(id@) + ".owl"@,
    }
}

/// The components one header clause stands for.
pub open spec fn header_clause_components(c: HeaderClause, ctx: CtxView) -> Seq<
    AnnotatedComponentView,
> {
    match c {
        HeaderClause::FormatVersion(v) => seq![
            ont_ann(ap_has_obo_format_version(), simple_lit(v@)),
        ],
        HeaderClause::DataVersion(_) => Seq::empty(),
        HeaderClause::Date(dt) => seq![
            ont_ann(ap_has_date(), typed_lit(xsd_naive_datetime_chars(dt), xsd_datetime())),
        ],
        HeaderClause::SavedBy(n) => seq![ont_ann(ap_saved_by(), simple_lit(n@))],
        HeaderClause::AutoGeneratedBy(n) => seq![
            ont_ann(ap_auto_generated_by(), simple_lit(n@)),
        ],
        HeaderClause::Import(imp) => seq![plain(ComponentView::Import(import_iri(imp)))],
        HeaderClause::Subsetdef(subset, desc) => {
            let iri = resolve_ident(ctx, subset@);
            seq![
                plain(ComponentView::DeclareAnnotationProperty(iri)),
                plain(
                    ComponentView::SubAnnotationPropertyOf {
                        sub: iri,
                        sup: ap_subset_property(),
                    },
                ),
                plain(assertion(iri, rdfs_label(), simple_lit(id_serialized(subset@)))),
                plain(assertion(iri, rdfs_comment(), simple_lit(desc@))),
            ]
        },
        HeaderClause::SynonymTypedef(ty, desc, optscope) => {
            let iri = resolve_ident(ctx, ty@);
            let base = seq![
                plain(ComponentView::DeclareAnnotationProperty(iri)),
                plain(
                    ComponentView::SubAnnotationPropertyOf {
                        sub: iri,
                        sup: ap_synonym_type_property(),
                    },
                ),
                plain(assertion(iri, rdfs_label(), simple_lit(desc@))),
            ];
            match optscope {
                Some(scope) => base.push(
                    plain(
                        assertion(
                            iri,
                            ap_has_scope(),
                            AnnotationValueView::Iri(scope_property(scope)),
                        ),
                    ),
                ),
                None => base,
            }
        },
        HeaderClause::DefaultNamespace(ns) => seq![
            ont_ann(ap_has_default_namespace(), simple_lit(id_serialized(ns@))),
        ],
        HeaderClause::NamespaceIdRule(r) => seq![
            ont_ann(ap_namespace_id_rule(), simple_lit(r@)),
        ],
        HeaderClause::Idspace(_, _, _) => Seq::empty(),
        HeaderClause::TreatXrefsAsEquivalent(_) => Seq::empty(),
        HeaderClause::TreatXrefsAsGenusDifferentia(_, _, _) => Seq::empty(),
        HeaderClause::TreatXrefsAsReverseGenusDifferentia(_, _, _) => Seq::empty(),
        HeaderClause::TreatXrefsAsRelationship(_, _) => Seq::empty(),
        HeaderClause::TreatXrefsAsIsA(_) => Seq::empty(),
        HeaderClause::TreatXrefsAsHasSubclass(_) => Seq::empty(),
        HeaderClause::Remark(v) => seq![ont_ann(rdfs_comment(), simple_lit(v@))],
        HeaderClause::PropertyValue(pv) => seq![
            plain(ComponentView::OntologyAnnotation(property_value_annotation(pv, ctx))),
        ],
        HeaderClause::Ontology(_) => Seq::empty(),
        HeaderClause::OwlAxioms(_) => Seq::empty(),
        HeaderClause::Unreserved(_, _) => Seq::empty(),
    }
}

/// The components of a whole header, clause by clause, in order.
pub open spec fn header_components(h: Seq<HeaderClause>, ctx: CtxView) -> Seq<
    AnnotatedComponentView,
>
    decreases h.len(),
{
    if h.len() == 0 {
        Seq::empty()
    } else {
        header_components(h.drop_last(), ctx) + header_clause_components(h.last(), ctx)
    }
}

/// The texts of the `owl-axioms` clauses, in order.
pub open spec fn owl_axioms_texts(h: Seq<HeaderClause>) -> Seq<Seq<char>>
    decreases h.len(),
{
    if h.len() == 0 {
        Seq::empty()
    } else {
        match h.last() {
            HeaderClause::OwlAxioms(text) => owl_axioms_texts(h.drop_last()).push(text@),
            _ => owl_axioms_texts(h.drop_last()),
        }
    }
}

/// Newline-join a list of texts.
pub open spec fn join_newline(s: Seq<Seq<char>>) -> Seq<char>
    decreases s.len(),
{
    if s.len() == 0 {
        Seq::empty()
    } else if s.len() == 1 {
        s[0]
    } else {
        join_newline(s.drop_last()) + seq!['\n'] + s.last()
    }
}

/// Translate one header clause.
pub fn translate_header_clause(ctx: &Context, c: HeaderClause) -> (r: Vec<AnnotatedComponent>)
    ensures
        comps_view(r@) == header_clause_components(c, ctx@),
{
    let mut out: Vec<AnnotatedComponent> = Vec::new();
    proof {
        assert(comps_view(out@) =~= Seq::<AnnotatedComponentView>::empty());
    }
    match c {
        HeaderClause::FormatVersion(v) => {
            out.push(ont_annotation(ap_has_obo_format_version_str(), mk_simple(v)));
        },
        HeaderClause::DataVersion(_) => {},
        HeaderClause::Date(dt) => {
            out.push(
                ont_annotation(
                    ap_has_date_str(),
                    mk_typed(dt.to_xsd_datetime(), String::from_str(xsd_datetime_str())),
                ),
            );
        },
        HeaderClause::SavedBy(n) => {
            out.push(ont_annotation(ap_saved_by_str(), mk_simple(n)));
        },
        HeaderClause::AutoGeneratedBy(n) => {
            out.push(ont_annotation(ap_auto_generated_by_str(), mk_simple(n)));
        },
        HeaderClause::Import(imp) => {
            let iri = match imp {
                Import::Url(u) => u,
                Import::Abbreviated(id) => {
                    let ser = id.serialized();
                    concat3(uri_obo_str(), ser.as_str(), ".owl")
                },
            };
            out.push(AnnotatedComponent::plain(Component::Import(iri)));
        },
        HeaderClause::Subsetdef(subset, desc) => {
            let iri = ctx.resolve(&subset);
            out.push(
                AnnotatedComponent::plain(Component::DeclareAnnotationProperty(iri.clone())),
            );
            out.push(
                AnnotatedComponent::plain(
                    Component::SubAnnotationPropertyOf {
                        sub: iri.clone(),
                        sup: String::from_str(ap_subset_property_str()),
                    },
                ),
            );
            out.push(
                mk_assertion(
                    iri.clone(),
                    String::from_str(rdfs_label_str()),
                    mk_simple(subset.serialized()),
                ),
            );
            out.push(
                mk_assertion(iri, String::from_str(rdfs_comment_str()), mk_simple(desc)),
            );
        },
        HeaderClause::SynonymTypedef(ty, desc, optscope) => {
            let iri = ctx.resolve(&ty);
            out.push(
                AnnotatedComponent::plain(Component::DeclareAnnotationProperty(iri.clone())),
            );
            out.push(
                AnnotatedComponent::plain(
                    Component::SubAnnotationPropertyOf {
                        sub: iri.clone(),
                        sup: String::from_str(ap_synonym_type_property_str()),
                    },
                ),
            );
            out.push(
                mk_assertion(iri.clone(), String::from_str(rdfs_label_str()), mk_simple(desc)),
            );
            match optscope {
                Some(scope) => {
                    out.push(
                        mk_assertion(
                            iri,
                            String::from_str(ap_has_scope_str()),
                            AnnotationValue::Iri(
                                String::from_str(crate::values::scope_property_str_pub(scope)),
                            ),
                        ),
                    );
                },
                None => {},
            }
        },
        HeaderClause::DefaultNamespace(ns) => {
            out.push(
                ont_annotation(ap_has_default_namespace_str(), mk_simple(ns.serialized())),
            );
        },
        HeaderClause::NamespaceIdRule(r) => {
            out.push(ont_annotation(ap_namespace_id_rule_str(), mk_simple(r)));
        },
        HeaderClause::Idspace(_, _, _) => {},
        HeaderClause::TreatXrefsAsEquivalent(_) => {},
        HeaderClause::TreatXrefsAsGenusDifferentia(_, _, _) => {},
        HeaderClause::TreatXrefsAsReverseGenusDifferentia(_, _, _) => {},
        HeaderClause::TreatXrefsAsRelationship(_, _) => {},
        HeaderClause::TreatXrefsAsIsA(_) => {},
        HeaderClause::TreatXrefsAsHasSubclass(_) => {},
        HeaderClause::Remark(v) => {
            out.push(ont_annotation(rdfs_comment_str(), mk_simple(v)));
        },
        HeaderClause::PropertyValue(pv) => {
            let a = translate_property_value(ctx, &pv);
            let r = AnnotatedComponent {
                component: Component::OntologyAnnotation(a),
                ann: Vec::new(),
            };
            proof {
                assert(anns_view(r.ann@) =~= Seq::<AnnotationView>::empty());
            }
            out.push(r);
        },
        HeaderClause::Ontology(_) => {},
        HeaderClause::OwlAxioms(_) => {},
        HeaderClause::Unreserved(_, _) => {},
    }
    proof {
        assert(comps_view(out@) =~= comps_view(out@));
    }
    out
}

/// An ontology annotation component.
fn ont_annotation(ap: &'static str, av: AnnotationValue) -> (r: AnnotatedComponent)
    ensures
        r@ == ont_ann(ap@, av@),
{
    let r = AnnotatedComponent {
        component: Component::OntologyAnnotation(
            Annotation { ap: String::from_str(ap), av },
        ),
        ann: Vec::new(),
    };
    proof {
        assert(anns_view(r.ann@) =~= Seq::<AnnotationView>::empty());
    }
    r
}

/// Gather the newline-joined text of the `owl-axioms` clauses of a header.
pub fn gather_owl_axioms(header: &Vec<HeaderClause>) -> (r: String)
    ensures
        r@ == join_newline(owl_axioms_texts(header@)),
{
    let mut out = String::new();
    let mut seen = false;
    let mut i: usize = 0;
    proof {
        assert(header@.subrange(0, 0) =~= Seq::<HeaderClause>::empty());
    }
    while i < header.len()
        invariant
            i <= header@.len(),
            seen == (owl_axioms_texts(header@.subrange(0, i as int)).len() > 0),
            out@ == join_newline(owl_axioms_texts(header@.subrange(0, i as int))),
        decreases header@.len() - i,
    {
        proof {
            let p1 = header@.subrange(0, i + 1int);
            assert(p1.drop_last() =~= header@.subrange(0, i as int));
            assert(p1.last() == header@[i as int]);
        }
        match &header[i] {
            HeaderClause::OwlAxioms(text) => {
                if seen {
                    out.append("\n");
                    proof {
                        reveal_strlit("\n");
                        assert("\n"@ =~= seq!['\n']);
                    }
                }
                out.append(text.as_str());
                proof {
                    let texts1 = owl_axioms_texts(header@.subrange(0, i + 1int));
                    assert(texts1.drop_last() =~= owl_axioms_texts(
                        header@.subrange(0, i as int),
                    ));
                    if !seen {
                        assert(texts1.len() == 1);
                        assert(out@ =~= texts1[0]);
                    }
                }
                seen = true;
            },
            _ => {},
        }
        i = i + 1;
    }
    proof {
        assert(header@.subrange(0, header@.len() as int) =~= header@);
    }
    out
}

/// Translate every header clause, in order. The returned components keep
/// duplicates; the document translator deduplicates on insertion.
pub fn translate_header_frame(ctx: &Context, header: Vec<HeaderClause>) -> (r: Vec<
    AnnotatedComponent,
>)
    ensures
        comps_view(r@) == header_components(header@, ctx@),
{
    let ghost all = header@;
    let mut out: Vec<AnnotatedComponent> = Vec::new();
    let mut header = header;
    let n = header.len();
    let mut i: usize = 0;
    proof {
        assert(all.subrange(0, 0) =~= Seq::<HeaderClause>::empty());
        assert(comps_view(out@) =~= Seq::<AnnotatedComponentView>::empty());
        assert(header_components(all.subrange(0, 0), ctx@) =~= Seq::<
            AnnotatedComponentView,
        >::empty());
    }
    while i < n
        invariant
            n == all.len(),
            i <= n,
            header@ == all.subrange(i as int, n as int),
            comps_view(out@) == header_components(all.subrange(0, i as int), ctx@),
        decreases n - i,
    {
        let clause = header.remove(0);
        let ghost gclause = clause;
        proof {
            assert(all.subrange(i as int, n as int)[0] == all[i as int]);
            assert(gclause == all[i as int]);
            assert(header@ =~= all.subrange(i + 1int, n as int));
        }
        let mut cs = translate_header_clause(ctx, clause);
        let ghost gcs = cs@;
        let ghost gout = out@;
        out.append(&mut cs);
        proof {
            let p1 = all.subrange(0, i + 1int);
            assert(p1.drop_last() =~= all.subrange(0, i as int));
            assert(p1.last() == all[i as int]);
            assert(out@ == gout + gcs);
            lemma_comps_view_concat(gout, gcs);
        }
        i = i + 1;
    }
    proof {
        assert(all.subrange(0, n as int) =~= all);
    }
    out
}

/// `comps_view` distributes over concatenation.
pub proof fn lemma_comps_view_concat(a: Seq<AnnotatedComponent>, b: Seq<AnnotatedComponent>)
    ensures
        comps_view(a + b) == comps_view(a) + comps_view(b),
{
    assert(comps_view(a + b) =~= comps_view(a) + comps_view(b));
}

} // verus!
