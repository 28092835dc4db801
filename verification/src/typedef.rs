//! The typedef frame translator. A typedef carrying `is_metadata_tag: true`
//! is declared as an annotation property and its hierarchy clauses are
//! rendered as annotation-property axioms; any other typedef is an object
//! property. OWL2 has no equivalent-annotation-properties axiom, so
//! `equivalent_to` in annotation mode is written as mutual subsumption.
//! `intersection_of`, `union_of` and `equivalent_to_chain` have no clean
//! OWL2 equivalent and are approximated as sub-property axioms, as the
//! mapping guide suggests; `disjoint_over` likewise has none and is
//! recorded as an annotation assertion rather than dropped. Qualifiers on
//! typedef lines attach no annotations.

use vstd::prelude::*;

use crate::ast::Line;
use crate::ast::TypedefClause;
use crate::ast::TypedefFrame;
use crate::ast::id_serialized;
use crate::constants::ap_consider;
use crate::constants::ap_consider_str;
use crate::constants::ap_disjoint_over;
use crate::constants::ap_disjoint_over_str;
use crate::constants::ap_has_alternative_id;
use crate::constants::ap_has_alternative_id_str;
use crate::constants::ap_has_obo_namespace;
use crate::constants::ap_has_obo_namespace_str;
use crate::constants::ap_id;
use crate::constants::ap_id_str;
use crate::constants::ap_in_subset;
use crate::constants::ap_in_subset_str;
use crate::constants::ap_is_cyclic;
use crate::constants::ap_is_cyclic_str;
use crate::constants::dc_creator;
use crate::constants::dc_creator_str;
use crate::constants::dc_date;
use crate::constants::dc_date_str;
use crate::constants::iao_anti_symmetric;
use crate::constants::iao_anti_symmetric_str;
use crate::constants::iao_expand_assertion_to;
use crate::constants::iao_expand_assertion_to_str;
use crate::constants::iao_expand_expression_to;
use crate::constants::iao_expand_expression_to_str;
use crate::constants::iao_replaced_by;
use crate::constants::iao_replaced_by_str;
use crate::constants::owl_deprecated;
use crate::constants::owl_deprecated_str;
use crate::constants::rdfs_comment;
use crate::constants::rdfs_comment_str;
use crate::constants::rdfs_label;
use crate::constants::rdfs_label_str;
use crate::constants::xsd_boolean;
use crate::constants::xsd_boolean_str;
use crate::context::Context;
use crate::context::CtxView;
use crate::context::resolve_ident;
use crate::context::typedef_is_metadata_tag;
use crate::owl::AnnotatedComponent;
use crate::owl::AnnotatedComponentView;
use crate::owl::Annotation;
use crate::owl::AnnotationValue;
use crate::owl::AnnotationValueView;
use crate::owl::AnnotationView;
use crate::owl::ClassExpression;
use crate::owl::Component;
use crate::owl::ComponentView;
use crate::owl::SubObjectProperty;
use crate::owl::SubObjectPropertyView;
use crate::owl::anns_view;
use crate::owl::comps_view;
use crate::owl::insert_component;
use crate::owl::insert_components;
use crate::owl::extend_unique_components;
use crate::owl::push_unique_component;
use crate::owl::strs_view;
use crate::expr::ce_class;
use crate::term::bool_chars;
use crate::term::bool_str;
use crate::values::assertion;
use crate::values::creation_date_value;
use crate::values::definition_component;
use crate::values::frame_assertion;
use crate::values::mk_assertion;
use crate::values::mk_simple;
use crate::values::mk_typed;
use crate::values::plain;
use crate::values::property_value_annotation;
use crate::values::simple_lit;
use crate::values::synonym_component;
use crate::values::translate_creation_date;
use crate::values::translate_definition;
use crate::values::translate_property_value;
use crate::values::translate_synonym;
use crate::values::translate_xref;
use crate::values::translate_xrefs;
use crate::values::typed_lit;
use crate::values::xref_annotation;
use crate::values::xrefs_annotations;

verus! {

broadcast use vstd::std_specs::vec::group_vec_axioms;

/// The components one typedef clause stands for, read against the current
/// frame. The `in_annotation` flag of the context decides how hierarchy
/// clauses are rendered; in annotation mode, `equivalent_to` becomes the
/// two subsumption axioms in both directions.
pub open spec fn typedef_clause_components(c: TypedefClause, ctx: CtxView) -> Seq<
    AnnotatedComponentView,
> {
    let cur = ctx.current_frame;
    match c {
        TypedefClause::IsAnonymous(_) => Seq::empty(),
        TypedefClause::Builtin(_) => Seq::empty(),
        TypedefClause::Name(n) => seq![plain(assertion(cur, rdfs_label(), simple_lit(n@)))],
        TypedefClause::Namespace(ns) => seq![
            plain(assertion(cur, ap_has_obo_namespace(), simple_lit(id_serialized(ns@)))),
        ],
        TypedefClause::AltId(id) => seq![
            plain(assertion(cur, ap_has_alternative_id(), simple_lit(id_serialized(id@)))),
        ],
        TypedefClause::Def(d) => seq![definition_component(d, ctx)],
        TypedefClause::Comment(text) => seq![
            plain(assertion(cur, rdfs_comment(), simple_lit(text@))),
        ],
        TypedefClause::Subset(s) => seq![
            plain(
                assertion(cur, ap_in_subset(), AnnotationValueView::Iri(resolve_ident(ctx, s@))),
            ),
        ],
        TypedefClause::Synonym(s) => seq![synonym_component(s, ctx)],
        TypedefClause::Xref(x) => seq![
            AnnotatedComponentView {
                component: ComponentView::AnnotationAssertion {
                    subject: cur,
                    ann: xref_annotation(x),
                },
                ann: match x.description {
                    Some(d) => seq![
                        AnnotationView { ap: rdfs_label(), av: simple_lit(d@) },
                    ],
                    None => Seq::empty(),
                },
            },
        ],
        TypedefClause::PropertyValue(pv) => seq![
            AnnotatedComponentView {
                component: ComponentView::AnnotationAssertion {
                    subject: cur,
                    ann: property_value_annotation(pv, ctx),
                },
                ann: Seq::empty(),
            },
        ],
        TypedefClause::Domain(cid) => seq![
            plain(
                ComponentView::ObjectPropertyDomain {
                    ope: cur,
                    ce: ce_class(resolve_ident(ctx, cid@)),
                },
            ),
        ],
        TypedefClause::Range(cid) => seq![
            plain(
                ComponentView::ObjectPropertyRange {
                    ope: cur,
                    ce: ce_class(resolve_ident(ctx, cid@)),
                },
            ),
        ],
        TypedefClause::HoldsOverChain(r1, r2) => seq![
            plain(
                ComponentView::SubObjectPropertyOf {
                    sub: SubObjectPropertyView::Chain(
                        seq![resolve_ident(ctx, r1@), resolve_ident(ctx, r2@)],
                    ),
                    sup: cur,
                },
            ),
        ],
        TypedefClause::IsAntiSymmetric(b) => if b {
            seq![
                plain(
                    assertion(
                        cur,
                        iao_anti_symmetric(),
                        typed_lit(bool_chars(true), xsd_boolean()),
                    ),
                ),
            ]
        } else {
            Seq::empty()
        },
        TypedefClause::IsCyclic(b) => if b {
            seq![
                plain(
                    assertion(cur, ap_is_cyclic(), typed_lit(bool_chars(true), xsd_boolean())),
                ),
            ]
        } else {
            Seq::empty()
        },
        TypedefClause::IsReflexive(b) => if b {
            seq![plain(ComponentView::ReflexiveObjectProperty(cur))]
        } else {
            Seq::empty()
        },
        TypedefClause::IsSymmetric(b) => if b {
            seq![plain(ComponentView::SymmetricObjectProperty(cur))]
        } else {
            Seq::empty()
        },
        TypedefClause::IsAsymmetric(b) => if b {
            seq![plain(ComponentView::AsymmetricObjectProperty(cur))]
        } else {
            Seq::empty()
        },
        TypedefClause::IsTransitive(b) => if b {
            seq![plain(ComponentView::TransitiveObjectProperty(cur))]
        } else {
            Seq::empty()
        },
        TypedefClause::IsFunctional(b) => if b {
            seq![plain(ComponentView::FunctionalObjectProperty(cur))]
        } else {
            Seq::empty()
        },
        TypedefClause::IsInverseFunctional(b) => if b {
            seq![plain(ComponentView::InverseFunctionalObjectProperty(cur))]
        } else {
            Seq::empty()
        },
        TypedefClause::IsA(sup) => if ctx.in_annotation {
            seq![
                plain(
                    ComponentView::SubAnnotationPropertyOf {
                        sub: cur,
                        sup: resolve_ident(ctx, sup@),
                    },
                ),
            ]
        } else {
            seq![
                plain(
                    ComponentView::SubObjectPropertyOf {
                        sub: SubObjectPropertyView::Property(cur),
                        sup: resolve_ident(ctx, sup@),
                    },
                ),
            ]
        },
        TypedefClause::IntersectionOf(rid) => seq![
            plain(
                ComponentView::SubObjectPropertyOf {
                    sub: SubObjectPropertyView::Property(cur),
                    sup: resolve_ident(ctx, rid@),
                },
            ),
        ],
        TypedefClause::UnionOf(rid) => seq![
            plain(
                ComponentView::SubObjectPropertyOf {
                    sub: SubObjectPropertyView::Property(resolve_ident(ctx, rid@)),
                    sup: cur,
                },
            ),
        ],
        TypedefClause::EquivalentTo(cls) => if ctx.in_annotation {
            seq![
                plain(
                    ComponentView::SubAnnotationPropertyOf {
                        sub: cur,
                        sup: resolve_ident(ctx, cls@),
                    },
                ),
                plain(
                    ComponentView::SubAnnotationPropertyOf {
                        sub: resolve_ident(ctx, cls@),
                        sup: cur,
                    },
                ),
            ]
        } else {
            seq![
                plain(
                    ComponentView::EquivalentObjectProperties(
                        seq![cur, resolve_ident(ctx, cls@)],
                    ),
                ),
            ]
        },
        TypedefClause::DisjointFrom(rid) => if !ctx.in_annotation {
            seq![
                plain(
                    ComponentView::DisjointObjectProperties(
                        seq![cur, resolve_ident(ctx, rid@)],
                    ),
                ),
            ]
        } else {
            Seq::empty()
        },
        TypedefClause::InverseOf(rid) => seq![
            plain(ComponentView::InverseObjectProperties(cur, resolve_ident(ctx, rid@))),
        ],
        TypedefClause::TransitiveOver(rid) => seq![
            plain(
                ComponentView::SubObjectPropertyOf {
                    sub: SubObjectPropertyView::Chain(seq![cur, resolve_ident(ctx, rid@)]),
                    sup: cur,
                },
            ),
        ],
        TypedefClause::EquivalentToChain(r1, r2) => seq![
            plain(
                ComponentView::SubObjectPropertyOf {
                    sub: SubObjectPropertyView::Chain(
                        seq![resolve_ident(ctx, r1@), resolve_ident(ctx, r2@)],
                    ),
                    sup: cur,
                },
            ),
        ],
        TypedefClause::DisjointOver(rid) => seq![
            plain(
                assertion(
                    cur,
                    ap_disjoint_over(),
                    AnnotationValueView::Iri(resolve_ident(ctx, rid@)),
                ),
            ),
        ],
        TypedefClause::Relationship(rid, target) => seq![
            plain(
                assertion(
                    cur,
                    resolve_ident(ctx, rid@),
                    AnnotationValueView::Iri(resolve_ident(ctx, target@)),
                ),
            ),
        ],
        TypedefClause::IsObsolete(b) => seq![
            plain(assertion(cur, owl_deprecated(), typed_lit(bool_chars(b), xsd_boolean()))),
        ],
        TypedefClause::ReplacedBy(id) => seq![
            plain(
                assertion(
                    cur,
                    iao_replaced_by(),
                    AnnotationValueView::Iri(resolve_ident(ctx, id@)),
                ),
            ),
        ],
        TypedefClause::Consider(id) => seq![
            plain(
                assertion(cur, ap_consider(), AnnotationValueView::Iri(resolve_ident(ctx, id@))),
            ),
        ],
        TypedefClause::CreatedBy(s) => seq![plain(assertion(cur, dc_creator(), simple_lit(s@)))],
        TypedefClause::CreationDate(d) => seq![
            plain(assertion(cur, dc_date(), creation_date_value(d))),
        ],
        TypedefClause::ExpandAssertionTo(template, xrefs) => seq![
            AnnotatedComponentView {
                component: assertion(cur, iao_expand_assertion_to(), simple_lit(template@)),
                ann: xrefs_annotations(xrefs@),
            },
        ],
        TypedefClause::ExpandExpressionTo(template, xrefs) => seq![
            AnnotatedComponentView {
                component: assertion(cur, iao_expand_expression_to(), simple_lit(template@)),
                ann: xrefs_annotations(xrefs@),
            },
        ],
        TypedefClause::IsMetadataTag(_) => Seq::empty(),
        TypedefClause::IsClassLevel(_) => Seq::empty(),
    }
}

/// The components of a sequence of typedef lines, folded left to right
/// with set-like insertion. Line qualifiers attach nothing.
pub open spec fn typedef_lines_comps(
    lines: Seq<Line<TypedefClause>>,
    ctx: CtxView,
    acc0: Seq<AnnotatedComponentView>,
) -> Seq<AnnotatedComponentView>
    decreases lines.len(),
{
    if lines.len() == 0 {
        acc0
    } else {
        insert_components(
            typedef_lines_comps(lines.drop_last(), ctx, acc0),
            typedef_clause_components(lines.last().clause, ctx),
        )
    }
}

/// One unfolding step of the typedef line fold.
pub proof fn lemma_typedef_lines_unfold(
    lines: Seq<Line<TypedefClause>>,
    ctx: CtxView,
    acc0: Seq<AnnotatedComponentView>,
    k: int,
)
    requires
        0 <= k < lines.len(),
    ensures
        typedef_lines_comps(lines.subrange(0, k + 1), ctx, acc0) == insert_components(
            typedef_lines_comps(lines.subrange(0, k), ctx, acc0),
            typedef_clause_components(lines[k].clause, ctx),
        ),
{
    let p1 = lines.subrange(0, k + 1);
    assert(p1.drop_last() =~= lines.subrange(0, k));
    assert(p1.last() == lines[k]);
}

/// The declaration and identifier record a typedef frame starts from.
pub open spec fn typedef_frame_init(frame: TypedefFrame, ctx: CtxView) -> Seq<
    AnnotatedComponentView,
> {
    let id = resolve_ident(ctx, frame.id@);
    let decl = if typedef_is_metadata_tag(frame) {
        ComponentView::DeclareAnnotationProperty(id)
    } else {
        ComponentView::DeclareObjectProperty(id)
    };
    insert_component(
        insert_component(Seq::empty(), plain(decl)),
        plain(assertion(id, ap_id(), simple_lit(id_serialized(frame.id@)))),
    )
}

/// The components a typedef frame translates to, with the `in_annotation`
/// flag set for the whole frame.
pub open spec fn typedef_frame_components(frame: TypedefFrame, ctx: CtxView) -> Seq<
    AnnotatedComponentView,
> {
    let ctx2 = CtxView { in_annotation: typedef_is_metadata_tag(frame), ..ctx };
    typedef_lines_comps(frame.lines@, ctx2, typedef_frame_init(frame, ctx2))
}

/// An empty component list.
fn no_components() -> (r: Vec<AnnotatedComponent>)
    ensures
        comps_view(r@) == Seq::<AnnotatedComponentView>::empty(),
{
    let r: Vec<AnnotatedComponent> = Vec::new();
    proof {
        assert(comps_view(r@) =~= Seq::<AnnotatedComponentView>::empty());
    }
    r
}

/// A list of one component.
fn one_component(c: AnnotatedComponent) -> (r: Vec<AnnotatedComponent>)
    ensures
        comps_view(r@) == seq![c@],
{
    let ghost gc = c;
    let mut r: Vec<AnnotatedComponent> = Vec::new();
    r.push(c);
    proof {
        assert(comps_view(r@) =~= seq![gc@]);
    }
    r
}

/// A list of two components.
fn two_components(a: AnnotatedComponent, b: AnnotatedComponent) -> (r: Vec<AnnotatedComponent>)
    ensures
        comps_view(r@) == seq![a@, b@],
{
    let ghost ga = a;
    let ghost gb = b;
    let mut r: Vec<AnnotatedComponent> = Vec::new();
    r.push(a);
    r.push(b);
    proof {
        assert(comps_view(r@) =~= seq![ga@, gb@]);
    }
    r
}

/// The string pair `[a, b]`.
fn str_pair(a: String, b: String) -> (r: Vec<String>)
    ensures
        strs_view(r@) == seq![a@, b@],
{
    let ghost ga = a@;
    let ghost gb = b@;
    let mut r: Vec<String> = Vec::new();
    r.push(a);
    r.push(b);
    proof {
        assert(strs_view(r@) =~= seq![ga, gb]);
    }
    r
}

/// A property chain of two links.
fn chain2(a: String, b: String) -> (r: SubObjectProperty)
    ensures
        r@ == SubObjectPropertyView::Chain(seq![a@, b@]),
{
    SubObjectProperty::Chain(str_pair(a, b))
}

/// Translate one typedef clause, against a context whose `in_annotation`
/// flag is already set for the frame.
pub fn translate_typedef_clause(ctx: &Context, c: TypedefClause) -> (r: Vec<AnnotatedComponent>)
    ensures
        comps_view(r@) == typedef_clause_components(c, ctx@),
{
    match c {
        TypedefClause::IsAnonymous(_) => no_components(),
        TypedefClause::Builtin(_) => no_components(),
        TypedefClause::Name(n) => one_component(
            frame_assertion(ctx, rdfs_label_str(), mk_simple(n)),
        ),
        TypedefClause::Namespace(ns) => one_component(
            frame_assertion(ctx, ap_has_obo_namespace_str(), mk_simple(ns.serialized())),
        ),
        TypedefClause::AltId(id) => one_component(
            frame_assertion(ctx, ap_has_alternative_id_str(), mk_simple(id.serialized())),
        ),
        TypedefClause::Def(d) => one_component(translate_definition(ctx, &d)),
        TypedefClause::Comment(text) => one_component(
            frame_assertion(ctx, rdfs_comment_str(), mk_simple(text)),
        ),
        TypedefClause::Subset(s) => one_component(
            frame_assertion(ctx, ap_in_subset_str(), AnnotationValue::Iri(ctx.resolve(&s))),
        ),
        TypedefClause::Synonym(s) => one_component(translate_synonym(ctx, &s)),
        TypedefClause::Xref(x) => {
            let mut ann: Vec<Annotation> = Vec::new();
            match &x.description {
                Some(d) => {
                    ann.push(
                        Annotation {
                            ap: String::from_str(rdfs_label_str()),
                            av: mk_simple(d.clone()),
                        },
                    );
                    proof {
                        assert(anns_view(ann@) =~= seq![
                            AnnotationView { ap: rdfs_label(), av: simple_lit(
                                x.description->Some_0@,
                            ) },
                        ]);
                    }
                },
                None => {
                    proof {
                        assert(anns_view(ann@) =~= Seq::<AnnotationView>::empty());
                    }
                },
            }
            one_component(
                AnnotatedComponent {
                    component: Component::AnnotationAssertion {
                        subject: ctx.current_frame().clone(),
                        ann: translate_xref(&x),
                    },
                    ann,
                },
            )
        },
        TypedefClause::PropertyValue(pv) => {
            let a = translate_property_value(ctx, &pv);
            let r = AnnotatedComponent {
                component: Component::AnnotationAssertion {
                    subject: ctx.current_frame().clone(),
                    ann: a,
                },
                ann: Vec::new(),
            };
            proof {
                assert(anns_view(r.ann@) =~= Seq::<AnnotationView>::empty());
            }
            one_component(r)
        },
        TypedefClause::Domain(cid) => one_component(
            AnnotatedComponent::plain(
                Component::ObjectPropertyDomain {
                    ope: ctx.current_frame().clone(),
                    ce: ClassExpression::Class(ctx.resolve(&cid)),
                },
            ),
        ),
        TypedefClause::Range(cid) => one_component(
            AnnotatedComponent::plain(
                Component::ObjectPropertyRange {
                    ope: ctx.current_frame().clone(),
                    ce: ClassExpression::Class(ctx.resolve(&cid)),
                },
            ),
        ),
        TypedefClause::HoldsOverChain(r1, r2) => one_component(
            AnnotatedComponent::plain(
                Component::SubObjectPropertyOf {
                    sub: chain2(ctx.resolve(&r1), ctx.resolve(&r2)),
                    sup: ctx.current_frame().clone(),
                },
            ),
        ),
        TypedefClause::IsAntiSymmetric(b) => if b {
            one_component(
                frame_assertion(
                    ctx,
                    iao_anti_symmetric_str(),
                    mk_typed(
                        String::from_str(bool_str(true)),
                        String::from_str(xsd_boolean_str()),
                    ),
                ),
            )
        } else {
            no_components()
        },
        TypedefClause::IsCyclic(b) => if b {
            one_component(
                frame_assertion(
                    ctx,
                    ap_is_cyclic_str(),
                    mk_typed(
                        String::from_str(bool_str(true)),
                        String::from_str(xsd_boolean_str()),
                    ),
                ),
            )
        } else {
            no_components()
        },
        TypedefClause::IsReflexive(b) => if b {
            one_component(
                AnnotatedComponent::plain(
                    Component::ReflexiveObjectProperty(ctx.current_frame().clone()),
                ),
            )
        } else {
            no_components()
        },
        TypedefClause::IsSymmetric(b) => if b {
            one_component(
                AnnotatedComponent::plain(
                    Component::SymmetricObjectProperty(ctx.current_frame().clone()),
                ),
            )
        } else {
            no_components()
        },
        TypedefClause::IsAsymmetric(b) => if b {
            one_component(
                AnnotatedComponent::plain(
                    Component::AsymmetricObjectProperty(ctx.current_frame().clone()),
                ),
            )
        } else {
            no_components()
        },
        TypedefClause::IsTransitive(b) => if b {
            one_component(
                AnnotatedComponent::plain(
                    Component::TransitiveObjectProperty(ctx.current_frame().clone()),
                ),
            )
        } else {
            no_components()
        },
        TypedefClause::IsFunctional(b) => if b {
            one_component(
                AnnotatedComponent::plain(
                    Component::FunctionalObjectProperty(ctx.current_frame().clone()),
                ),
            )
        } else {
            no_components()
        },
        TypedefClause::IsInverseFunctional(b) => if b {
            one_component(
                AnnotatedComponent::plain(
                    Component::InverseFunctionalObjectProperty(ctx.current_frame().clone()),
                ),
            )
        } else {
            no_components()
        },
        TypedefClause::IsA(sup) => if ctx.in_annotation() {
            one_component(
                AnnotatedComponent::plain(
                    Component::SubAnnotationPropertyOf {
                        sub: ctx.current_frame().clone(),
                        sup: ctx.resolve(&sup),
                    },
                ),
            )
        } else {
            one_component(
                AnnotatedComponent::plain(
                    Component::SubObjectPropertyOf {
                        sub: SubObjectProperty::Property(ctx.current_frame().clone()),
                        sup: ctx.resolve(&sup),
                    },
                ),
            )
        },
        TypedefClause::IntersectionOf(rid) => one_component(
            AnnotatedComponent::plain(
                Component::SubObjectPropertyOf {
                    sub: SubObjectProperty::Property(ctx.current_frame().clone()),
                    sup: ctx.resolve(&rid),
                },
            ),
        ),
        TypedefClause::UnionOf(rid) => one_component(
            AnnotatedComponent::plain(
                Component::SubObjectPropertyOf {
                    sub: SubObjectProperty::Property(ctx.resolve(&rid)),
                    sup: ctx.current_frame().clone(),
                },
            ),
        ),
        TypedefClause::EquivalentTo(cls) => if ctx.in_annotation() {
            two_components(
                AnnotatedComponent::plain(
                    Component::SubAnnotationPropertyOf {
                        sub: ctx.current_frame().clone(),
                        sup: ctx.resolve(&cls),
                    },
                ),
                AnnotatedComponent::plain(
                    Component::SubAnnotationPropertyOf {
                        sub: ctx.resolve(&cls),
                        sup: ctx.current_frame().clone(),
                    },
                ),
            )
        } else {
            one_component(
                AnnotatedComponent::plain(
                    Component::EquivalentObjectProperties(
                        str_pair(ctx.current_frame().clone(), ctx.resolve(&cls)),
                    ),
                ),
            )
        },
        TypedefClause::DisjointFrom(rid) => if !ctx.in_annotation() {
            one_component(
                AnnotatedComponent::plain(
                    Component::DisjointObjectProperties(
                        str_pair(ctx.current_frame().clone(), ctx.resolve(&rid)),
                    ),
                ),
            )
        } else {
            no_components()
        },
        TypedefClause::InverseOf(rid) => one_component(
            AnnotatedComponent::plain(
                Component::InverseObjectProperties(
                    ctx.current_frame().clone(),
                    ctx.resolve(&rid),
                ),
            ),
        ),
        TypedefClause::TransitiveOver(rid) => one_component(
            AnnotatedComponent::plain(
                Component::SubObjectPropertyOf {
                    sub: chain2(ctx.current_frame().clone(), ctx.resolve(&rid)),
                    sup: ctx.current_frame().clone(),
                },
            ),
        ),
        TypedefClause::EquivalentToChain(r1, r2) => one_component(
            AnnotatedComponent::plain(
                Component::SubObjectPropertyOf {
                    sub: chain2(ctx.resolve(&r1), ctx.resolve(&r2)),
                    sup: ctx.current_frame().clone(),
                },
            ),
        ),
        TypedefClause::DisjointOver(rid) => one_component(
            frame_assertion(
                ctx,
                ap_disjoint_over_str(),
                AnnotationValue::Iri(ctx.resolve(&rid)),
            ),
        ),
        TypedefClause::Relationship(rid, target) => one_component(
            mk_assertion(
                ctx.current_frame().clone(),
                ctx.resolve(&rid),
                AnnotationValue::Iri(ctx.resolve(&target)),
            ),
        ),
        TypedefClause::IsObsolete(b) => one_component(
            frame_assertion(
                ctx,
                owl_deprecated_str(),
                mk_typed(String::from_str(bool_str(b)), String::from_str(xsd_boolean_str())),
            ),
        ),
        TypedefClause::ReplacedBy(id) => one_component(
            frame_assertion(ctx, iao_replaced_by_str(), AnnotationValue::Iri(ctx.resolve(&id))),
        ),
        TypedefClause::Consider(id) => one_component(
            frame_assertion(ctx, ap_consider_str(), AnnotationValue::Iri(ctx.resolve(&id))),
        ),
        TypedefClause::CreatedBy(s) => one_component(
            frame_assertion(ctx, dc_creator_str(), mk_simple(s)),
        ),
        TypedefClause::CreationDate(d) => one_component(
            frame_assertion(ctx, dc_date_str(), translate_creation_date(&d)),
        ),
        TypedefClause::ExpandAssertionTo(template, xrefs) => one_component(
            AnnotatedComponent {
                component: Component::AnnotationAssertion {
                    subject: ctx.current_frame().clone(),
                    ann: Annotation {
                        ap: String::from_str(iao_expand_assertion_to_str()),
                        av: mk_simple(template),
                    },
                },
                ann: translate_xrefs(&xrefs),
            },
        ),
        TypedefClause::ExpandExpressionTo(template, xrefs) => one_component(
            AnnotatedComponent {
                component: Component::AnnotationAssertion {
                    subject: ctx.current_frame().clone(),
                    ann: Annotation {
                        ap: String::from_str(iao_expand_expression_to_str()),
                        av: mk_simple(template),
                    },
                },
                ann: translate_xrefs(&xrefs),
            },
        ),
        TypedefClause::IsMetadataTag(_) => no_components(),
        TypedefClause::IsClassLevel(_) => no_components(),
    }
}

/// Whether a frame carries `is_metadata_tag: true`, deciding its
/// translation as an annotation property.
pub fn is_annotation_property(frame: &TypedefFrame) -> (r: bool)
    ensures
        r == typedef_is_metadata_tag(*frame),
{
    let mut j: usize = 0;
    let mut found = false;
    while j < frame.lines.len()
        invariant
            j <= frame.lines@.len(),
            found == exists|t: int|
                0 <= t < j && #[trigger] frame.lines@[t].clause == TypedefClause::IsMetadataTag(
                    true,
                ),
        decreases frame.lines@.len() - j,
    {
        match &frame.lines[j].clause {
            TypedefClause::IsMetadataTag(true) => {
                found = true;
            },
            _ => {},
        }
        j = j + 1;
    }
    found
}

/// Translate a whole typedef frame. The context's `in_annotation` flag is
/// set for the frame and left so, as the translation pass expects.
#[verifier::loop_isolation(false)]
pub fn translate_typedef_frame(ctx: &mut Context, frame: TypedefFrame) -> (r: Vec<
    AnnotatedComponent,
>)
    ensures
        comps_view(r@) == typedef_frame_components(frame, old(ctx)@),
        final(ctx)@ == (CtxView { in_annotation: typedef_is_metadata_tag(frame), ..old(ctx)@ }),
{
    let ghost gframe = frame;
    proof {
        assert(gframe == frame);
    }
    let meta = is_annotation_property(&frame);
    ctx.set_in_annotation(meta);
    let ghost ctx2 = ctx@;

    let id = ctx.resolve(&frame.id);
    let mut comps: Vec<AnnotatedComponent> = Vec::new();
    proof {
        assert(comps_view(comps@) =~= Seq::<AnnotatedComponentView>::empty());
    }
    let decl = if meta {
        Component::DeclareAnnotationProperty(id.clone())
    } else {
        Component::DeclareObjectProperty(id.clone())
    };
    push_unique_component(&mut comps, AnnotatedComponent::plain(decl));
    push_unique_component(
        &mut comps,
        mk_assertion(
            id,
            String::from_str(ap_id_str()),
            mk_simple(frame.id.serialized()),
        ),
    );
    proof {
        assert(resolve_ident(ctx2, gframe.id@) == resolve_ident(old(ctx)@, gframe.id@));
        assert(comps_view(comps@) == typedef_frame_init(gframe, ctx2));
    }

    let ghost all = frame.lines@;
    let ghost init = typedef_frame_init(gframe, ctx2);
    let mut lines = frame.lines;
    let n = lines.len();
    let mut k: usize = 0;
    proof {
        assert(all.subrange(0, 0) =~= Seq::<Line<TypedefClause>>::empty());
    }
    while k < n
        invariant
            n == all.len(),
            k <= n,
            lines@ == all.subrange(k as int, n as int),
            ctx@ == ctx2,
            comps_view(comps@) == typedef_lines_comps(all.subrange(0, k as int), ctx2, init),
        decreases n - k,
    {
        let line = lines.remove(0);
        let ghost gline = line;
        proof {
            assert(all.subrange(k as int, n as int)[0] == all[k as int]);
            assert(gline == all[k as int]);
            assert(lines@ =~= all.subrange(k + 1int, n as int));
            lemma_typedef_lines_unfold(all, ctx2, init, k as int);
        }
        let cs = translate_typedef_clause(ctx, line.clause);
        extend_unique_components(&mut comps, cs);
        k = k + 1;
    }
    proof {
        assert(all.subrange(0, n as int) =~= all);
        assert(ctx2 == (CtxView {
            in_annotation: typedef_is_metadata_tag(gframe),
            ..old(ctx)@
        }));
    }
    comps
}

} // verus!
