//! The term frame translator: a class declaration, the original identifier
//! as an `oboInOwl:id` annotation, one component per clause, and the
//! per-frame merging of `intersection_of` and `union_of` clauses into a
//! single equivalence axiom each.

use vstd::prelude::*;

use crate::ast::Line;
use crate::ast::TermClause;
use crate::ast::TermFrame;
use crate::ast::id_serialized;
use crate::constants::ap_consider;
use crate::constants::ap_consider_str;
use crate::constants::ap_has_alternative_id;
use crate::constants::ap_has_alternative_id_str;
use crate::constants::ap_has_obo_namespace;
use crate::constants::ap_has_obo_namespace_str;
use crate::constants::ap_id;
use crate::constants::ap_id_str;
use crate::constants::ap_in_subset;
use crate::constants::ap_in_subset_str;
use crate::constants::dc_creator;
use crate::constants::dc_creator_str;
use crate::constants::dc_date;
use crate::constants::dc_date_str;
use crate::constants::iao_replaced_by;
use crate::constants::iao_replaced_by_str;
use crate::constants::owl_deprecated;
use crate::constants::owl_deprecated_str;
use crate::constants::rdfs_comment;
use crate::constants::rdfs_comment_str;
use crate::constants::rdfs_label;
use crate::constants::rdfs_label_str;
use crate::constants::xsd_boolean;
use crate::constants::xsd_boolean_str;
use crate::context::Context;
use crate::context::CtxView;
use crate::context::resolve_ident;
use crate::error::Error;
use crate::error::ErrorView;
use crate::expr::ce_class;
use crate::expr::rel_ce_spec;
use crate::owl::AnnotatedComponent;
use crate::owl::AnnotatedComponentView;
use crate::owl::Annotation;
use crate::owl::AnnotationValue;
use crate::owl::AnnotationValueView;
use crate::owl::AnnotationView;
use crate::owl::ClassExpression;
use crate::owl::ClassExpressionView;
use crate::owl::Component;
use crate::owl::ComponentView;
use crate::owl::anns_view;
use crate::owl::ce_view;
use crate::owl::ces_view;
use crate::owl::comps_view;
use crate::owl::extend_unique_annotations;
use crate::owl::insert_annotations;
use crate::owl::insert_component;
use crate::owl::lemma_ces_view;
use crate::owl::push_unique_component;
use crate::values::assertion;
use crate::values::creation_date_value;
use crate::values::definition_component;
use crate::values::frame_assertion;
use crate::values::mk_assertion;
use crate::values::mk_simple;
use crate::values::mk_typed;
use crate::values::plain;
use crate::values::property_value_annotation;
use crate::values::qualifier_annotations;
use crate::values::simple_lit;
use crate::values::synonym_component;
use crate::values::translate_creation_date;
use crate::values::translate_definition;
use crate::values::translate_property_value;
use crate::values::translate_qualifiers;
use crate::values::translate_synonym;
use crate::values::translate_xref;
use crate::values::typed_lit;
use crate::values::xref_annotation;

verus! {

broadcast use vstd::std_specs::vec::group_vec_axioms;

/// How a boolean clause value is written as a literal.
pub open spec fn bool_chars(b: bool) -> Seq<char> {
    if b {
        "true"@
    } else {
        "false"@
    }
}

pub fn bool_str(b: bool) -> (r: &'static str)
    ensures
        r@ == bool_chars(b),
{
    if b {
        "true"
    } else {
        "false"
    }
}

/// `ces_view` distributes over concatenation.
pub proof fn lemma_ces_view_concat(a: Seq<ClassExpression>, b: Seq<ClassExpression>)
    ensures
        ces_view(a + b) == ces_view(a) + ces_view(b),
    decreases b.len(),
{
    lemma_ces_view(a);
    lemma_ces_view(b);
    lemma_ces_view(a + b);
    assert(ces_view(a + b) =~= ces_view(a) + ces_view(b));
}

// ---------------------------------------------------------------------------
// Clause translation
// ---------------------------------------------------------------------------

/// The component one term clause stands for, read against the current
/// frame, with no qualifiers in play. `is_anonymous` and `builtin` clauses
/// produce nothing. `relationship` and qualified `intersection_of` clauses
/// are normally intercepted at line level where their qualifiers live; read
/// here, they are translated with an empty qualifier list.
pub open spec fn term_clause_component(c: TermClause, ctx: CtxView) -> Option<
    AnnotatedComponentView,
> {
    let cur = ctx.current_frame;
    match c {
        TermClause::IsAnonymous(_) => None,
        TermClause::Builtin(_) => None,
        TermClause::Name(n) => Some(plain(assertion(cur, rdfs_label(), simple_lit(n@)))),
        TermClause::Namespace(ns) => Some(
            plain(assertion(cur, ap_has_obo_namespace(), simple_lit(id_serialized(ns@)))),
        ),
        TermClause::AltId(id) => Some(
            plain(assertion(cur, ap_has_alternative_id(), simple_lit(id_serialized(id@)))),
        ),
        TermClause::Def(d) => Some(definition_component(d, ctx)),
        TermClause::Comment(text) => Some(plain(assertion(cur, rdfs_comment(), simple_lit(text@)))),
        TermClause::Subset(s) => Some(
            plain(
                assertion(cur, ap_in_subset(), AnnotationValueView::Iri(resolve_ident(ctx, s@))),
            ),
        ),
        TermClause::Synonym(s) => Some(synonym_component(s, ctx)),
        TermClause::Xref(x) => Some(
            AnnotatedComponentView {
                component: ComponentView::AnnotationAssertion {
                    subject: cur,
                    ann: xref_annotation(x),
                },
                ann: match x.description {
                    Some(d) => seq![
                        AnnotationView { ap: rdfs_label(), av: simple_lit(d@) },
                    ],
                    None => Seq::empty(),
                },
            },
        ),
        TermClause::PropertyValue(pv) => Some(
            AnnotatedComponentView {
                component: ComponentView::AnnotationAssertion {
                    subject: cur,
                    ann: property_value_annotation(pv, ctx),
                },
                ann: Seq::empty(),
            },
        ),
        TermClause::IsA(sup) => Some(
            plain(
                ComponentView::SubClassOf {
                    sub: ce_class(cur),
                    sup: ce_class(resolve_ident(ctx, sup@)),
                },
            ),
        ),
        TermClause::EquivalentTo(c2) => Some(
            plain(
                ComponentView::EquivalentClasses(
                    seq![ce_class(cur), ce_class(resolve_ident(ctx, c2@))],
                ),
            ),
        ),
        TermClause::DisjointFrom(c2) => Some(
            plain(
                ComponentView::DisjointClasses(
                    seq![ce_class(cur), ce_class(resolve_ident(ctx, c2@))],
                ),
            ),
        ),
        TermClause::IsObsolete(b) => Some(
            plain(assertion(cur, owl_deprecated(), typed_lit(bool_chars(b), xsd_boolean()))),
        ),
        TermClause::ReplacedBy(id) => Some(
            plain(
                assertion(
                    cur,
                    iao_replaced_by(),
                    AnnotationValueView::Iri(resolve_ident(ctx, id@)),
                ),
            ),
        ),
        TermClause::Consider(id) => Some(
            plain(
                assertion(cur, ap_consider(), AnnotationValueView::Iri(resolve_ident(ctx, id@))),
            ),
        ),
        TermClause::CreatedBy(s) => Some(plain(assertion(cur, dc_creator(), simple_lit(s@)))),
        TermClause::CreationDate(d) => Some(
            plain(assertion(cur, dc_date(), creation_date_value(d))),
        ),
        TermClause::IntersectionOf(None, cid) => Some(
            plain(
                ComponentView::EquivalentClasses(
                    seq![
                        ce_class(cur),
                        ClassExpressionView::ObjectIntersectionOf(
                            seq![ce_class(resolve_ident(ctx, cid@))],
                        ),
                    ],
                ),
            ),
        ),
        TermClause::UnionOf(cid) => Some(
            plain(
                ComponentView::EquivalentClasses(
                    seq![
                        ce_class(cur),
                        ClassExpressionView::ObjectUnionOf(
                            seq![ce_class(resolve_ident(ctx, cid@))],
                        ),
                    ],
                ),
            ),
        ),
        TermClause::Relationship(rid, cid) => Some(
            plain(
                ComponentView::SubClassOf {
                    sub: ce_class(cur),
                    sup: rel_ce_spec(
                        Seq::empty(),
                        resolve_ident(ctx, rid@),
                        resolve_ident(ctx, cid@),
                        ctx.class_level.contains(resolve_ident(ctx, rid@)),
                    )->Ok_0,
                },
            ),
        ),
        TermClause::IntersectionOf(Some(rid), cid) => Some(
            plain(
                ComponentView::EquivalentClasses(
                    seq![
                        ce_class(cur),
                        ClassExpressionView::ObjectIntersectionOf(
                            seq![
                                rel_ce_spec(
                                    Seq::empty(),
                                    resolve_ident(ctx, rid@),
                                    resolve_ident(ctx, cid@),
                                    ctx.class_level.contains(resolve_ident(ctx, rid@)),
                                )->Ok_0,
                            ],
                        ),
                    ],
                ),
            ),
        ),
    }
}

/// With no qualifiers at all, the expression builder cannot fail.
pub proof fn lemma_rel_ce_empty_ok(r: Seq<char>, c: Seq<char>, class_level: bool)
    ensures
        rel_ce_spec(Seq::empty(), r, c, class_level) is Ok,
{
    assert(crate::expr::find_qualifier(Seq::<crate::ast::Qualifier>::empty(), "cardinality"@)
        is None);
    assert(crate::expr::find_qualifier(Seq::<crate::ast::Qualifier>::empty(), "maxCardinality"@)
        is None);
    assert(crate::expr::find_qualifier(Seq::<crate::ast::Qualifier>::empty(), "minCardinality"@)
        is None);
    assert(crate::expr::find_qualifier(Seq::<crate::ast::Qualifier>::empty(), "all_only"@)
        is None);
}

/// The component one term frame line stands for: a `relationship` clause
/// routes through the expression builder, unless its relation is a
/// metadata tag, in which case it becomes a plain annotation assertion; a
/// qualified `intersection_of` clause routes through the builder inside
/// its equivalence; every other clause is translated on its own and then
/// carries the line's qualifiers as annotations.
pub open spec fn term_line_component(line: Line<TermClause>, ctx: CtxView) -> Result<
    Option<AnnotatedComponentView>,
    ErrorView,
> {
    let cur = ctx.current_frame;
    match line.clause {
        TermClause::IntersectionOf(Some(rid), cid) => {
            match rel_ce_spec(
                line.qualifiers@,
                resolve_ident(ctx, rid@),
                resolve_ident(ctx, cid@),
                ctx.class_level.contains(resolve_ident(ctx, rid@)),
            ) {
                Err(e) => Err(e),
                Ok(ce) => Ok(
                    Some(
                        AnnotatedComponentView {
                            component: ComponentView::EquivalentClasses(
                                seq![
                                    ce_class(cur),
                                    ClassExpressionView::ObjectIntersectionOf(seq![ce]),
                                ],
                            ),
                            ann: qualifier_annotations(line.qualifiers@, ctx),
                        },
                    ),
                ),
            }
        },
        TermClause::Relationship(rid, cid) => {
            if ctx.metadata_tag.contains(resolve_ident(ctx, rid@)) {
                Ok(
                    Some(
                        plain(
                            assertion(
                                cur,
                                resolve_ident(ctx, rid@),
                                AnnotationValueView::Iri(resolve_ident(ctx, cid@)),
                            ),
                        ),
                    ),
                )
            } else {
                match rel_ce_spec(
                    line.qualifiers@,
                    resolve_ident(ctx, rid@),
                    resolve_ident(ctx, cid@),
                    ctx.class_level.contains(resolve_ident(ctx, rid@)),
                ) {
                    Err(e) => Err(e),
                    Ok(ce) => Ok(
                        Some(
                            AnnotatedComponentView {
                                component: ComponentView::SubClassOf {
                                    sub: ce_class(cur),
                                    sup: ce,
                                },
                                ann: qualifier_annotations(line.qualifiers@, ctx),
                            },
                        ),
                    ),
                }
            }
        },
        _ => match term_clause_component(line.clause, ctx) {
            None => Ok(None),
            Some(ac) => Ok(
                Some(
                    AnnotatedComponentView {
                        component: ac.component,
                        ann: insert_annotations(
                            ac.ann,
                            qualifier_annotations(line.qualifiers@, ctx),
                        ),
                    },
                ),
            ),
        },
    }
}

// ---------------------------------------------------------------------------
// Frame translation
// ---------------------------------------------------------------------------

/// The running state of a term frame translation: the components kept so
/// far, and the operands and annotations of the pending `intersection_of`
/// and `union_of` merges.
pub struct TermAcc {
    pub comps: Seq<AnnotatedComponentView>,
    pub inters: Seq<ClassExpressionView>,
    pub inters_ann: Seq<AnnotationView>,
    pub unions: Seq<ClassExpressionView>,
    pub unions_ann: Seq<AnnotationView>,
}

/// Whether a component is an equivalence whose second operand is an
/// intersection, as the per-clause translation of `intersection_of`
/// produces it.
pub open spec fn is_intersection_equiv(c: ComponentView) -> bool {
    c matches ComponentView::EquivalentClasses(v) && v.len() == 2 && v[1]
        is ObjectIntersectionOf
}

pub open spec fn is_union_equiv(c: ComponentView) -> bool {
    c matches ComponentView::EquivalentClasses(v) && v.len() == 2 && v[1] is ObjectUnionOf
}

/// Fold one translated line into the accumulator: equivalences over an
/// intersection or a union are collected for the per-frame merge, anything
/// else joins the component list.
pub open spec fn term_acc_step(acc: TermAcc, oc: Option<AnnotatedComponentView>) -> TermAcc {
    match oc {
        None => acc,
        Some(ac) => if is_intersection_equiv(ac.component) {
            TermAcc {
                inters: acc.inters + ac.component->EquivalentClasses_0[1]->ObjectIntersectionOf_0,
                inters_ann: insert_annotations(acc.inters_ann, ac.ann),
                ..acc
            }
        } else if is_union_equiv(ac.component) {
            TermAcc {
                unions: acc.unions + ac.component->EquivalentClasses_0[1]->ObjectUnionOf_0,
                unions_ann: insert_annotations(acc.unions_ann, ac.ann),
                ..acc
            }
        } else {
            TermAcc { comps: insert_component(acc.comps, ac), ..acc }
        },
    }
}

/// Fold a sequence of lines, left to right, stopping at the first error.
pub open spec fn term_lines_acc(
    lines: Seq<Line<TermClause>>,
    ctx: CtxView,
    acc0: TermAcc,
) -> Result<TermAcc, ErrorView>
    decreases lines.len(),
{
    if lines.len() == 0 {
        Ok(acc0)
    } else {
        match term_lines_acc(lines.drop_last(), ctx, acc0) {
            Err(e) => Err(e),
            Ok(acc) => match term_line_component(lines.last(), ctx) {
                Err(e) => Err(e),
                Ok(oc) => Ok(term_acc_step(acc, oc)),
            },
        }
    }
}

/// Once a prefix of the lines fails, the whole sequence fails the same
/// way.
pub proof fn lemma_term_lines_acc_err(
    lines: Seq<Line<TermClause>>,
    ctx: CtxView,
    acc0: TermAcc,
    i: int,
)
    requires
        0 <= i <= lines.len(),
        term_lines_acc(lines.subrange(0, i), ctx, acc0) is Err,
    ensures
        term_lines_acc(lines, ctx, acc0) == term_lines_acc(lines.subrange(0, i), ctx, acc0),
    decreases lines.len() - i,
{
    if i < lines.len() {
        let p1 = lines.subrange(0, i + 1);
        assert(p1.drop_last() =~= lines.subrange(0, i));
        lemma_term_lines_acc_err(lines, ctx, acc0, i + 1);
    } else {
        assert(lines.subrange(0, i) =~= lines);
    }
}

/// One unfolding step of the line fold, at position `k`.
pub proof fn lemma_term_lines_acc_unfold(
    lines: Seq<Line<TermClause>>,
    ctx: CtxView,
    acc0: TermAcc,
    k: int,
)
    requires
        0 <= k < lines.len(),
    ensures
        term_lines_acc(lines.subrange(0, k + 1), ctx, acc0) == (match term_lines_acc(
            lines.subrange(0, k),
            ctx,
            acc0,
        ) {
            Err(e) => Err::<TermAcc, ErrorView>(e),
            Ok(acc) => match term_line_component(lines[k], ctx) {
                Err(e) => Err::<TermAcc, ErrorView>(e),
                Ok(oc) => Ok::<TermAcc, ErrorView>(term_acc_step(acc, oc)),
            },
        }),
{
    let p1 = lines.subrange(0, k + 1);
    assert(p1.drop_last() =~= lines.subrange(0, k));
    assert(p1.last() == lines[k]);
}

/// A failing line at position `k`, after a clean prefix, fails the whole
/// frame with its error.
pub proof fn lemma_term_frame_err(frame: TermFrame, ctx: CtxView, k: int, e: ErrorView)
    requires
        0 <= k < frame.lines@.len(),
        term_lines_acc(frame.lines@.subrange(0, k), ctx, term_frame_init(frame, ctx)) is Ok,
        term_line_component(frame.lines@[k], ctx) == Err::<
            Option<AnnotatedComponentView>,
            ErrorView,
        >(e),
    ensures
        term_frame_components(frame, ctx) == Err::<Seq<AnnotatedComponentView>, ErrorView>(e),
{
    let all = frame.lines@;
    let init = term_frame_init(frame, ctx);
    lemma_term_lines_acc_unfold(all, ctx, init, k);
    lemma_term_lines_acc_err(all, ctx, init, k + 1);
}

/// The accumulator a term frame starts from: the class declaration, and
/// the original identifier recorded under `oboInOwl:id`.
pub open spec fn term_frame_init(frame: TermFrame, ctx: CtxView) -> TermAcc {
    let id = resolve_ident(ctx, frame.id@);
    TermAcc {
        comps: insert_component(
            insert_component(Seq::empty(), plain(ComponentView::DeclareClass(id))),
            plain(assertion(id, ap_id(), simple_lit(id_serialized(frame.id@)))),
        ),
        inters: Seq::empty(),
        inters_ann: Seq::empty(),
        unions: Seq::empty(),
        unions_ann: Seq::empty(),
    }
}

/// The components a term frame translates to: the declaration and
/// identifier record, each clause's component, and one merged equivalence
/// for all `intersection_of` clauses and one for all `union_of` clauses.
pub open spec fn term_frame_components(frame: TermFrame, ctx: CtxView) -> Result<
    Seq<AnnotatedComponentView>,
    ErrorView,
> {
    let id = resolve_ident(ctx, frame.id@);
    match term_lines_acc(frame.lines@, ctx, term_frame_init(frame, ctx)) {
        Err(e) => Err(e),
        Ok(acc) => {
            let c1 = if acc.inters.len() > 0 {
                insert_component(
                    acc.comps,
                    AnnotatedComponentView {
                        component: ComponentView::EquivalentClasses(
                            seq![
                                ce_class(id),
                                ClassExpressionView::ObjectIntersectionOf(acc.inters),
                            ],
                        ),
                        ann: acc.inters_ann,
                    },
                )
            } else {
                acc.comps
            };
            let c2 = if acc.unions.len() > 0 {
                insert_component(
                    c1,
                    AnnotatedComponentView {
                        component: ComponentView::EquivalentClasses(
                            seq![ce_class(id), ClassExpressionView::ObjectUnionOf(acc.unions)],
                        ),
                        ann: acc.unions_ann,
                    },
                )
            } else {
                c1
            };
            Ok(c2)
        },
    }
}

// ---------------------------------------------------------------------------
// Executable translation
// ---------------------------------------------------------------------------

/// Translate one term clause, read with no qualifiers.
pub fn translate_term_clause(ctx: &Context, c: TermClause) -> (r: Option<AnnotatedComponent>)
    ensures
        match r {
            Some(ac) => term_clause_component(c, ctx@) == Some(ac@),
            None => term_clause_component(c, ctx@) is None,
        },
{
    match c {
        TermClause::IsAnonymous(_) => None,
        TermClause::Builtin(_) => None,
        TermClause::Name(n) => Some(frame_assertion(ctx, rdfs_label_str(), mk_simple(n))),
        TermClause::Namespace(ns) => Some(
            frame_assertion(ctx, ap_has_obo_namespace_str(), mk_simple(ns.serialized())),
        ),
        TermClause::AltId(id) => Some(
            frame_assertion(ctx, ap_has_alternative_id_str(), mk_simple(id.serialized())),
        ),
        TermClause::Def(d) => Some(translate_definition(ctx, &d)),
        TermClause::Comment(text) => Some(
            frame_assertion(ctx, rdfs_comment_str(), mk_simple(text)),
        ),
        TermClause::Subset(s) => Some(
            frame_assertion(ctx, ap_in_subset_str(), AnnotationValue::Iri(ctx.resolve(&s))),
        ),
        TermClause::Synonym(s) => Some(translate_synonym(ctx, &s)),
        TermClause::Xref(x) => {
            let mut ann: Vec<Annotation> = Vec::new();
            match &x.description {
                Some(d) => {
                    ann.push(
                        Annotation {
                            ap: String::from_str(rdfs_label_str()),
                            av: mk_simple(d.clone()),
                        },
                    );
                    proof {
                        assert(anns_view(ann@) =~= seq![
                            AnnotationView { ap: rdfs_label(), av: simple_lit(
                                x.description->Some_0@,
                            ) },
                        ]);
                    }
                },
                None => {
                    proof {
                        assert(anns_view(ann@) =~= Seq::<AnnotationView>::empty());
                    }
                },
            }
            Some(
                AnnotatedComponent {
                    component: Component::AnnotationAssertion {
                        subject: ctx.current_frame().clone(),
                        ann: translate_xref(&x),
                    },
                    ann,
                },
            )
        },
        TermClause::PropertyValue(pv) => {
            let a = translate_property_value(ctx, &pv);
            let r = AnnotatedComponent {
                component: Component::AnnotationAssertion {
                    subject: ctx.current_frame().clone(),
                    ann: a,
                },
                ann: Vec::new(),
            };
            proof {
                assert(anns_view(r.ann@) =~= Seq::<AnnotationView>::empty());
            }
            Some(r)
        },
        TermClause::IsA(sup) => Some(
            AnnotatedComponent::plain(
                Component::SubClassOf {
                    sub: ClassExpression::Class(ctx.current_frame().clone()),
                    sup: ClassExpression::Class(ctx.resolve(&sup)),
                },
            ),
        ),
        TermClause::EquivalentTo(c2) => Some(
            AnnotatedComponent::plain(
                Component::EquivalentClasses(
                    class_pair(ctx.current_frame().clone(), ctx.resolve(&c2)),
                ),
            ),
        ),
        TermClause::DisjointFrom(c2) => Some(
            AnnotatedComponent::plain(
                Component::DisjointClasses(
                    class_pair(ctx.current_frame().clone(), ctx.resolve(&c2)),
                ),
            ),
        ),
        TermClause::IsObsolete(b) => Some(
            frame_assertion(
                ctx,
                owl_deprecated_str(),
                mk_typed(String::from_str(bool_str(b)), String::from_str(xsd_boolean_str())),
            ),
        ),
        TermClause::ReplacedBy(id) => Some(
            frame_assertion(ctx, iao_replaced_by_str(), AnnotationValue::Iri(ctx.resolve(&id))),
        ),
        TermClause::Consider(id) => Some(
            frame_assertion(ctx, ap_consider_str(), AnnotationValue::Iri(ctx.resolve(&id))),
        ),
        TermClause::CreatedBy(s) => Some(frame_assertion(ctx, dc_creator_str(), mk_simple(s))),
        TermClause::CreationDate(d) => Some(
            frame_assertion(ctx, dc_date_str(), translate_creation_date(&d)),
        ),
        TermClause::IntersectionOf(None, cid) => Some(
            AnnotatedComponent::plain(
                Component::EquivalentClasses(
                    class_and_wrapped(
                        ctx.current_frame().clone(),
                        ctx.resolve(&cid),
                        false,
                    ),
                ),
            ),
        ),
        TermClause::UnionOf(cid) => Some(
            AnnotatedComponent::plain(
                Component::EquivalentClasses(
                    class_and_wrapped(ctx.current_frame().clone(), ctx.resolve(&cid), true),
                ),
            ),
        ),
        TermClause::Relationship(rid, cid) => {
            let empty_q: Vec<crate::ast::Qualifier> = Vec::new();
            proof {
                lemma_rel_ce_empty_ok(
                    resolve_ident(ctx@, rid@),
                    resolve_ident(ctx@, cid@),
                    ctx@.class_level.contains(resolve_ident(ctx@, rid@)),
                );
                assert(empty_q@ =~= Seq::<crate::ast::Qualifier>::empty());
            }
            match ctx.rel_class_expression(&empty_q, &rid, &cid) {
                Ok(ce) => Some(
                    AnnotatedComponent::plain(
                        Component::SubClassOf {
                            sub: ClassExpression::Class(ctx.current_frame().clone()),
                            sup: ce,
                        },
                    ),
                ),
                Err(_) => vstd::pervasive::unreached(),
            }
        },
        TermClause::IntersectionOf(Some(rid), cid) => {
            let empty_q: Vec<crate::ast::Qualifier> = Vec::new();
            proof {
                lemma_rel_ce_empty_ok(
                    resolve_ident(ctx@, rid@),
                    resolve_ident(ctx@, cid@),
                    ctx@.class_level.contains(resolve_ident(ctx@, rid@)),
                );
                assert(empty_q@ =~= Seq::<crate::ast::Qualifier>::empty());
            }
            match ctx.rel_class_expression(&empty_q, &rid, &cid) {
                Ok(ce) => Some(
                    AnnotatedComponent::plain(
                        Component::EquivalentClasses(
                            class_and_intersection_of_one(ctx.current_frame().clone(), ce),
                        ),
                    ),
                ),
                Err(_) => vstd::pervasive::unreached(),
            }
        },
    }
}

/// The two-element operand list `[Class(a), Class(b)]`.
fn class_pair(a: String, b: String) -> (r: Vec<ClassExpression>)
    ensures
        ces_view(r@) == seq![ce_class(a@), ce_class(b@)],
{
    let ca = ClassExpression::Class(a);
    let cb = ClassExpression::Class(b);
    let ghost ga = ca;
    let ghost gb = cb;
    let mut r: Vec<ClassExpression> = Vec::new();
    r.push(ca);
    r.push(cb);
    proof {
        lemma_ces_view(r@);
        assert(r@[0] == ga);
        assert(r@[1] == gb);
        assert(ces_view(r@) =~= seq![ce_view(ga), ce_view(gb)]);
    }
    r
}

/// The operand list `[Class(a), IntersectionOf([Class(b)])]`, or with a
/// union in place of the intersection.
fn class_and_wrapped(a: String, b: String, union: bool) -> (r: Vec<ClassExpression>)
    ensures
        ces_view(r@) == seq![
            ce_class(a@),
            if union {
                ClassExpressionView::ObjectUnionOf(seq![ce_class(b@)])
            } else {
                ClassExpressionView::ObjectIntersectionOf(seq![ce_class(b@)])
            },
        ],
{
    let cb = ClassExpression::Class(b);
    let ghost gb = cb;
    let mut inner: Vec<ClassExpression> = Vec::new();
    inner.push(cb);
    proof {
        lemma_ces_view(inner@);
        assert(inner@[0] == gb);
        assert(ces_view(inner@) =~= seq![ce_view(gb)]);
    }
    let wrapped = if union {
        ClassExpression::ObjectUnionOf(inner)
    } else {
        ClassExpression::ObjectIntersectionOf(inner)
    };
    let ghost gw = wrapped;
    let ca = ClassExpression::Class(a);
    let ghost ga = ca;
    let mut r: Vec<ClassExpression> = Vec::new();
    r.push(ca);
    r.push(wrapped);
    proof {
        lemma_ces_view(r@);
        assert(r@[0] == ga);
        assert(r@[1] == gw);
        assert(ces_view(r@) =~= seq![ce_view(ga), ce_view(gw)]);
    }
    r
}

/// The operand list `[Class(a), IntersectionOf([ce])]`.
fn class_and_intersection_of_one(a: String, ce: ClassExpression) -> (r: Vec<ClassExpression>)
    ensures
        ces_view(r@) == seq![
            ce_class(a@),
            ClassExpressionView::ObjectIntersectionOf(seq![ce@]),
        ],
{
    let ghost gce = ce;
    let mut inner: Vec<ClassExpression> = Vec::new();
    inner.push(ce);
    proof {
        lemma_ces_view(inner@);
        assert(inner@[0] == gce);
        assert(ces_view(inner@) =~= seq![ce_view(gce)]);
    }
    let wrapped = ClassExpression::ObjectIntersectionOf(inner);
    let ghost gw = wrapped;
    let ca = ClassExpression::Class(a);
    let ghost ga = ca;
    let mut r: Vec<ClassExpression> = Vec::new();
    r.push(ca);
    r.push(wrapped);
    proof {
        lemma_ces_view(r@);
        assert(r@[0] == ga);
        assert(r@[1] == gw);
        assert(ces_view(r@) =~= seq![ce_view(ga), ce_view(gw)]);
    }
    r
}

/// Translate one line of a term frame.
pub fn translate_term_line(ctx: &Context, line: Line<TermClause>) -> (r: Result<
    Option<AnnotatedComponent>,
    Error,
>)
    ensures
        match r {
            Ok(Some(ac)) => term_line_component(line, ctx@) == Ok::<_, ErrorView>(Some(ac@)),
            Ok(None) => term_line_component(line, ctx@) == Ok::<Option<AnnotatedComponentView>, ErrorView>(None),
            Err(e) => term_line_component(line, ctx@) == Err::<Option<AnnotatedComponentView>, ErrorView>(e@),
        },
{
    match line.clause {
        TermClause::IntersectionOf(Some(rid), cid) => {
            match ctx.rel_class_expression(&line.qualifiers, &rid, &cid) {
                Err(e) => Err(e),
                Ok(ce) => {
                    let anns = translate_qualifiers(ctx, &line.qualifiers);
                    Ok(
                        Some(
                            AnnotatedComponent {
                                component: Component::EquivalentClasses(
                                    class_and_intersection_of_one(
                                        ctx.current_frame().clone(),
                                        ce,
                                    ),
                                ),
                                ann: anns,
                            },
                        ),
                    )
                },
            }
        },
        TermClause::Relationship(rid, cid) => {
            let r_iri = ctx.resolve(&rid);
            if ctx.is_metadata_tag(&r_iri) {
                Ok(
                    Some(
                        mk_assertion(
                            ctx.current_frame().clone(),
                            r_iri,
                            AnnotationValue::Iri(ctx.resolve(&cid)),
                        ),
                    ),
                )
            } else {
                match ctx.rel_class_expression(&line.qualifiers, &rid, &cid) {
                    Err(e) => Err(e),
                    Ok(ce) => {
                        let anns = translate_qualifiers(ctx, &line.qualifiers);
                        Ok(
                            Some(
                                AnnotatedComponent {
                                    component: Component::SubClassOf {
                                        sub: ClassExpression::Class(ctx.current_frame().clone()),
                                        sup: ce,
                                    },
                                    ann: anns,
                                },
                            ),
                        )
                    },
                }
            }
        },
        _ => {
            let ghost gclause = line.clause;
            match translate_term_clause(ctx, line.clause) {
                None => Ok(None),
                Some(mut ac) => {
                    let anns = translate_qualifiers(ctx, &line.qualifiers);
                    extend_unique_annotations(&mut ac.ann, anns);
                    Ok(Some(ac))
                },
            }
        },
    }
}

/// Decide how a component folds into the accumulator: `1` for an
/// equivalence over an intersection, `2` for one over a union, `0` for
/// anything else.
fn classify_component(c: &Component) -> (k: u8)
    ensures
        (k == 1) == is_intersection_equiv(c@),
        (k == 2) == is_union_equiv(c@),
        k == 0 || k == 1 || k == 2,
{
    match c {
        Component::EquivalentClasses(v) => {
            proof {
                lemma_ces_view(v@);
            }
            if v.len() == 2 {
                match &v[1] {
                    ClassExpression::ObjectIntersectionOf(_) => {
                        proof {
                            assert(ce_view(v@[1]) is ObjectIntersectionOf);
                        }
                        1
                    },
                    ClassExpression::ObjectUnionOf(_) => {
                        proof {
                            assert(ce_view(v@[1]) is ObjectUnionOf);
                        }
                        2
                    },
                    _ => {
                        proof {
                            assert(!(ce_view(v@[1]) is ObjectIntersectionOf));
                            assert(!(ce_view(v@[1]) is ObjectUnionOf));
                        }
                        0
                    },
                }
            } else {
                0
            }
        },
        _ => 0,
    }
}

/// Fold one translated component into the frame accumulator, as
/// `term_acc_step` describes.
fn fold_term_component(
    comps: &mut Vec<AnnotatedComponent>,
    inters: &mut Vec<ClassExpression>,
    inters_ann: &mut Vec<Annotation>,
    unions: &mut Vec<ClassExpression>,
    unions_ann: &mut Vec<Annotation>,
    ac: AnnotatedComponent,
)
    ensures
        ({
            let before = TermAcc {
                comps: comps_view(old(comps)@),
                inters: ces_view(old(inters)@),
                inters_ann: anns_view(old(inters_ann)@),
                unions: ces_view(old(unions)@),
                unions_ann: anns_view(old(unions_ann)@),
            };
            let after = TermAcc {
                comps: comps_view(final(comps)@),
                inters: ces_view(final(inters)@),
                inters_ann: anns_view(final(inters_ann)@),
                unions: ces_view(final(unions)@),
                unions_ann: anns_view(final(unions_ann)@),
            };
            after == term_acc_step(before, Some(ac@))
        }),
{
    let kind: u8 = classify_component(&ac.component);
    if kind == 1 {
        let ghost gac = ac;
        let AnnotatedComponent { component, ann } = ac;
        match component {
            Component::EquivalentClasses(mut v) => {
                proof {
                    lemma_ces_view(v@);
                }
                let second = v.pop();
                match second {
                    Some(ClassExpression::ObjectIntersectionOf(mut objs)) => {
                        let ghost gi = inters@;
                        let ghost gobjs = objs@;
                        inters.append(&mut objs);
                        proof {
                            assert(inters@ == gi + gobjs);
                            lemma_ces_view_concat(gi, gobjs);
                            assert(ces_view(gobjs)
                                == gac@.component->EquivalentClasses_0[1]->ObjectIntersectionOf_0);
                        }
                        extend_unique_annotations(inters_ann, ann);
                    },
                    _ => {
                        proof {
                            assert(false);
                        }
                    },
                }
            },
            _ => {
                proof {
                    assert(false);
                }
            },
        }
    } else if kind == 2 {
        let ghost gac = ac;
        let AnnotatedComponent { component, ann } = ac;
        match component {
            Component::EquivalentClasses(mut v) => {
                proof {
                    lemma_ces_view(v@);
                }
                let second = v.pop();
                match second {
                    Some(ClassExpression::ObjectUnionOf(mut objs)) => {
                        let ghost gu = unions@;
                        let ghost gobjs = objs@;
                        unions.append(&mut objs);
                        proof {
                            assert(unions@ == gu + gobjs);
                            lemma_ces_view_concat(gu, gobjs);
                            assert(ces_view(gobjs)
                                == gac@.component->EquivalentClasses_0[1]->ObjectUnionOf_0);
                        }
                        extend_unique_annotations(unions_ann, ann);
                    },
                    _ => {
                        proof {
                            assert(false);
                        }
                    },
                }
            },
            _ => {
                proof {
                    assert(false);
                }
            },
        }
    } else {
        proof {
            assert(!is_intersection_equiv(ac@.component));
            assert(!is_union_equiv(ac@.component));
        }
        push_unique_component(comps, ac);
    }
}

/// Translate one line and fold its component into the accumulator,
/// advancing the fold from position `k` to `k + 1`.
#[verifier::rlimit(60)]
fn term_frame_step(
    ctx: &Context,
    line: Line<TermClause>,
    comps: &mut Vec<AnnotatedComponent>,
    inters: &mut Vec<ClassExpression>,
    inters_ann: &mut Vec<Annotation>,
    unions: &mut Vec<ClassExpression>,
    unions_ann: &mut Vec<Annotation>,
    all: Ghost<Seq<Line<TermClause>>>,
    init: Ghost<TermAcc>,
    k: Ghost<int>,
) -> (r: Result<(), Error>)
    requires
        0 <= k@ < all@.len(),
        line == all@[k@],
        term_lines_acc(all@.subrange(0, k@), ctx@, init@) == Ok::<TermAcc, ErrorView>(
            TermAcc {
                comps: comps_view(old(comps)@),
                inters: ces_view(old(inters)@),
                inters_ann: anns_view(old(inters_ann)@),
                unions: ces_view(old(unions)@),
                unions_ann: anns_view(old(unions_ann)@),
            },
        ),
    ensures
        match r {
            Ok(_) => term_lines_acc(all@.subrange(0, k@ + 1), ctx@, init@) == Ok::<
                TermAcc,
                ErrorView,
            >(
                TermAcc {
                    comps: comps_view(final(comps)@),
                    inters: ces_view(final(inters)@),
                    inters_ann: anns_view(final(inters_ann)@),
                    unions: ces_view(final(unions)@),
                    unions_ann: anns_view(final(unions_ann)@),
                },
            ),
            Err(e) => term_lines_acc(all@.subrange(0, k@ + 1), ctx@, init@) == Err::<
                TermAcc,
                ErrorView,
            >(e@),
        },
{
    proof {
        lemma_term_lines_acc_unfold(all@, ctx@, init@, k@);
    }
    match translate_term_line(ctx, line) {
        Err(e) => Err(e),
        Ok(None) => Ok(()),
        Ok(Some(ac)) => {
            fold_term_component(comps, inters, inters_ann, unions, unions_ann, ac);
            Ok(())
        },
    }
}

/// Translate a whole term frame.
#[verifier::rlimit(60)]
#[verifier::loop_isolation(false)]
pub fn translate_term_frame(ctx: &Context, frame: TermFrame) -> (r: Result<
    Vec<AnnotatedComponent>,
    Error,
>)
    ensures
        match r {
            Ok(v) => term_frame_components(frame, ctx@) == Ok::<_, ErrorView>(comps_view(v@)),
            Err(e) => term_frame_components(frame, ctx@) == Err::<
                Seq<AnnotatedComponentView>,
                ErrorView,
            >(e@),
        },
{
    let ghost gframe = frame;
    proof {
        assert(gframe == frame);
    }
    let id = ctx.resolve(&frame.id);
    let mut comps: Vec<AnnotatedComponent> = Vec::new();
    proof {
        assert(comps_view(comps@) =~= Seq::<AnnotatedComponentView>::empty());
    }
    push_unique_component(
        &mut comps,
        AnnotatedComponent::plain(Component::DeclareClass(id.clone())),
    );
    push_unique_component(
        &mut comps,
        mk_assertion(
            id.clone(),
            String::from_str(ap_id_str()),
            mk_simple(frame.id.serialized()),
        ),
    );
    let mut inters: Vec<ClassExpression> = Vec::new();
    let mut inters_ann: Vec<Annotation> = Vec::new();
    let mut unions: Vec<ClassExpression> = Vec::new();
    let mut unions_ann: Vec<Annotation> = Vec::new();
    proof {
        assert(ces_view(inters@) =~= Seq::<ClassExpressionView>::empty());
        assert(anns_view(inters_ann@) =~= Seq::<AnnotationView>::empty());
        assert(ces_view(unions@) =~= Seq::<ClassExpressionView>::empty());
        assert(anns_view(unions_ann@) =~= Seq::<AnnotationView>::empty());
        assert(comps_view(comps@) == term_frame_init(gframe, ctx@).comps);
    }

    let ghost all = frame.lines@;
    let ghost init = term_frame_init(gframe, ctx@);
    let mut lines = frame.lines;
    let n = lines.len();
    let mut k: usize = 0;
    proof {
        assert(all.subrange(0, 0) =~= Seq::<Line<TermClause>>::empty());
    }
    while k < n
        invariant
            n == all.len(),
            all == gframe.lines@,
            init == term_frame_init(gframe, ctx@),
            k <= n,
            lines@ == all.subrange(k as int, n as int),
            term_lines_acc(all.subrange(0, k as int), ctx@, init) == Ok::<TermAcc, ErrorView>(
                TermAcc {
                    comps: comps_view(comps@),
                    inters: ces_view(inters@),
                    inters_ann: anns_view(inters_ann@),
                    unions: ces_view(unions@),
                    unions_ann: anns_view(unions_ann@),
                },
            ),
        decreases n - k,
    {
        let line = lines.remove(0);
        proof {
            assert(all.subrange(k as int, n as int)[0] == all[k as int]);
            assert(lines@ =~= all.subrange(k + 1int, n as int));
        }
        match term_frame_step(
            ctx,
            line,
            &mut comps,
            &mut inters,
            &mut inters_ann,
            &mut unions,
            &mut unions_ann,
            Ghost(all),
            Ghost(init),
            Ghost(k as int),
        ) {
            Err(e) => {
                proof {
                    lemma_term_lines_acc_err(all, ctx@, init, k + 1int);
                    assert(term_lines_acc(gframe.lines@, ctx@, term_frame_init(gframe, ctx@))
                        == Err::<TermAcc, ErrorView>(e@));
                    assert(term_frame_components(gframe, ctx@) == Err::<
                        Seq<AnnotatedComponentView>,
                        ErrorView,
                    >(e@));
                }
                return Err(e);
            },
            Ok(_) => {},
        }
        k = k + 1;
    }
    proof {
        assert(all.subrange(0, n as int) =~= all);
    }

    if inters.len() > 0 {
        let merged = AnnotatedComponent {
            component: Component::EquivalentClasses(
                class_and_intersection_vec(id.clone(), inters),
            ),
            ann: inters_ann,
        };
        push_unique_component(&mut comps, merged);
    }
    if unions.len() > 0 {
        let merged = AnnotatedComponent {
            component: Component::EquivalentClasses(class_and_union_vec(id, unions)),
            ann: unions_ann,
        };
        push_unique_component(&mut comps, merged);
    }
    Ok(comps)
}

/// The operand list `[Class(a), IntersectionOf(parts)]`.
fn class_and_intersection_vec(a: String, parts: Vec<ClassExpression>) -> (r: Vec<ClassExpression>)
    ensures
        ces_view(r@) == seq![
            ce_class(a@),
            ClassExpressionView::ObjectIntersectionOf(ces_view(parts@)),
        ],
{
    let ghost gparts = parts@;
    let wrapped = ClassExpression::ObjectIntersectionOf(parts);
    let ghost gw = wrapped;
    let ca = ClassExpression::Class(a);
    let ghost ga = ca;
    let mut r: Vec<ClassExpression> = Vec::new();
    r.push(ca);
    r.push(wrapped);
    proof {
        lemma_ces_view(r@);
        assert(r@[0] == ga);
        assert(r@[1] == gw);
        assert(ces_view(r@) =~= seq![ce_view(ga), ce_view(gw)]);
    }
    r
}

/// The operand list `[Class(a), UnionOf(parts)]`.
fn class_and_union_vec(a: String, parts: Vec<ClassExpression>) -> (r: Vec<ClassExpression>)
    ensures
        ces_view(r@) == seq![
            ce_class(a@),
            ClassExpressionView::ObjectUnionOf(ces_view(parts@)),
        ],
{
    let ghost gparts = parts@;
    let wrapped = ClassExpression::ObjectUnionOf(parts);
    let ghost gw = wrapped;
    let ca = ClassExpression::Class(a);
    let ghost ga = ca;
    let mut r: Vec<ClassExpression> = Vec::new();
    r.push(ca);
    r.push(wrapped);
    proof {
        lemma_ces_view(r@);
        assert(r@[0] == ga);
        assert(r@[1] == gw);
        assert(ces_view(r@) =~= seq![ce_view(ga), ce_view(gw)]);
    }
    r
}

} // verus!
