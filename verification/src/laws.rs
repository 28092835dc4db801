//! The general properties of the translation, stated and proved once over
//! all inputs: purity of identifier resolution, the precedence the
//! expression builder gives the cardinality qualifiers, the per-frame merge
//! of intersection clauses, and the uniqueness of the frame declaration and
//! identifier record.

use vstd::prelude::*;

use crate::ast::Ident;
use crate::ast::IdentView;
use crate::ast::Line;
use crate::ast::Qualifier;
use crate::ast::TermClause;
use crate::ast::TermFrame;
use crate::ast::id_serialized;
use crate::constants::ap_id;
use crate::context::CtxView;
use crate::context::resolve_ident;
use crate::context::resolve_parts;
use crate::error::ErrorView;
use crate::expr::ce_all_complement;
use crate::expr::ce_class;
use crate::expr::find_qualifier;
use crate::expr::key_is;
use crate::expr::rel_ce_spec;
use crate::owl::AnnotatedComponentView;
use crate::owl::AnnotationView;
use crate::owl::ClassExpressionView;
use crate::owl::ComponentView;
use crate::owl::insert_annotations;
use crate::owl::insert_component;
use crate::strings::parse_i32_spec;
use crate::strings::parse_u32_spec;
use crate::strings::sign_split;
use crate::strings::is_digit;
use crate::term::TermAcc;
use crate::term::term_acc_step;
use crate::term::term_clause_component;
use crate::term::term_frame_components;
use crate::term::term_frame_init;
use crate::term::term_line_component;
use crate::term::term_lines_acc;
use crate::values::assertion;
use crate::values::plain;
use crate::values::qualifier_annotations;
use crate::values::simple_lit;

verus! {

// ---------------------------------------------------------------------------
// Resolution is pure
// ---------------------------------------------------------------------------

/// Identifier resolution is a pure function of the idspace table and the
/// ontology IRI: two contexts that agree on those resolve every identifier
/// alike, whatever else happened to them. Resolving twice against an
/// unmodified context therefore yields identical IRIs.
pub proof fn lemma_resolution_pure(a: CtxView, b: CtxView, id: IdentView)
    requires
        a.idspaces == b.idspaces,
        a.ontology_iri == b.ontology_iri,
    ensures
        resolve_ident(a, id) == resolve_ident(b, id),
{
    assert(resolve_ident(a, id) == resolve_parts(a.idspaces, a.ontology_iri, id));
}

// ---------------------------------------------------------------------------
// The expression builder's precedence
// ---------------------------------------------------------------------------

/// What `find_qualifier` returns is an element of the list with the key
/// looked for; nothing is found exactly when no element has the key.
pub proof fn lemma_find_qualifier(qs: Seq<Qualifier>, name: Seq<char>)
    ensures
        match find_qualifier(qs, name) {
            Some(q) => key_is(q, name) && exists|i: int| 0 <= i < qs.len() && qs[i] == q,
            None => forall|i: int| 0 <= i < qs.len() ==> !key_is(#[trigger] qs[i], name),
        },
    decreases qs.len(),
{
    if qs.len() > 0 {
        if key_is(qs[0], name) {
        } else {
            lemma_find_qualifier(qs.drop_first(), name);
            match find_qualifier(qs.drop_first(), name) {
                Some(q) => {
                    let i = choose|i: int|
                        0 <= i < qs.drop_first().len() && qs.drop_first()[i] == q;
                    assert(qs[i + 1] == q);
                },
                None => {
                    assert(forall|i: int|
                        1 <= i < qs.len() ==> !key_is(#[trigger] qs[i], name)) by {
                        assert(forall|i: int|
                            1 <= i < qs.len() ==> qs[i] == qs.drop_first()[i - 1]);
                    }
                },
            }
        }
    }
}

/// A qualifier list whose `cardinality` qualifiers all carry the value
/// zero, with at least one present, always yields the universal
/// restriction over the complement of the filler, whatever else stands in
/// the list. A list carrying a second, nonzero `cardinality` qualifier
/// before the zero one falls outside this statement: the first found wins.
pub proof fn lemma_cardinality_zero(
    qs: Seq<Qualifier>,
    r: Seq<char>,
    c: Seq<char>,
    class_level: bool,
)
    requires
        exists|i: int| 0 <= i < qs.len() && key_is(#[trigger] qs[i], "cardinality"@),
        forall|i: int|
            0 <= i < qs.len() && key_is(#[trigger] qs[i], "cardinality"@) ==> parse_u32_spec(
                qs[i].value@,
            ) == Some(0u32),
    ensures
        rel_ce_spec(qs, r, c, class_level) == Ok::<ClassExpressionView, ErrorView>(
            ce_all_complement(r, c),
        ),
{
    lemma_find_qualifier(qs, "cardinality"@);
    match find_qualifier(qs, "cardinality"@) {
        Some(q) => {
            let i = choose|i: int| 0 <= i < qs.len() && qs[i] == q;
            assert(parse_u32_spec(q.value@) == Some(0u32));
        },
        None => {
            let i = choose|i: int| 0 <= i < qs.len() && key_is(#[trigger] qs[i], "cardinality"@);
            assert(false);
        },
    }
}

/// A value that parses as a `u32` within the positive `i32` range parses
/// the same way as an `i32`.
proof fn lemma_parse_u32_as_i32(s: Seq<char>, b: u32)
    requires
        parse_u32_spec(s) == Some(b),
        b <= 0x7fff_ffff,
    ensures
        parse_i32_spec(s) == Some(b as i32),
{
    let (_, digits_u) = sign_split(s, false);
    if !(s.len() > 0 && s[0] == '+') {
        assert(digits_u == s);
        assert(is_digit(s[0]));
        assert(s[0] != '-');
    }
}

/// A qualifier list with both bounds and no exact cardinality yields the
/// intersection of the minimum and maximum restrictions. The maximum must
/// be at least one: a zero maximum is the complement rule instead.
pub proof fn lemma_min_and_max(
    qs: Seq<Qualifier>,
    r: Seq<char>,
    c: Seq<char>,
    class_level: bool,
    a: u32,
    b: u32,
)
    requires
        forall|i: int| 0 <= i < qs.len() ==> !key_is(#[trigger] qs[i], "cardinality"@),
        ({
            let qa = find_qualifier(qs, "minCardinality"@);
            qa is Some && parse_u32_spec(qa->Some_0.value@) == Some(a)
        }),
        ({
            let qb = find_qualifier(qs, "maxCardinality"@);
            qb is Some && parse_u32_spec(qb->Some_0.value@) == Some(b)
        }),
        1 <= b <= 0x7fff_ffff,
        a <= b,
    ensures
        rel_ce_spec(qs, r, c, class_level) == Ok::<ClassExpressionView, ErrorView>(
            ClassExpressionView::ObjectIntersectionOf(
                seq![
                    ClassExpressionView::ObjectMinCardinality {
                        n: a,
                        ope: r,
                        bce: Box::new(ce_class(c)),
                    },
                    ClassExpressionView::ObjectMaxCardinality {
                        n: b,
                        ope: r,
                        bce: Box::new(ce_class(c)),
                    },
                ],
            ),
        ),
{
    lemma_find_qualifier(qs, "cardinality"@);
    match find_qualifier(qs, "cardinality"@) {
        Some(q) => {
            assert(false);
        },
        None => {},
    }
    let qb = find_qualifier(qs, "maxCardinality"@)->Some_0;
    lemma_parse_u32_as_i32(qb.value@, b);
}

/// Removing the maximum bound leaves the minimum restriction standing
/// alone.
pub proof fn lemma_min_alone(
    qs: Seq<Qualifier>,
    r: Seq<char>,
    c: Seq<char>,
    class_level: bool,
    a: u32,
)
    requires
        forall|i: int| 0 <= i < qs.len() ==> !key_is(#[trigger] qs[i], "cardinality"@),
        forall|i: int| 0 <= i < qs.len() ==> !key_is(#[trigger] qs[i], "maxCardinality"@),
        ({
            let qa = find_qualifier(qs, "minCardinality"@);
            qa is Some && parse_u32_spec(qa->Some_0.value@) == Some(a)
        }),
    ensures
        rel_ce_spec(qs, r, c, class_level) == Ok::<ClassExpressionView, ErrorView>(
            ClassExpressionView::ObjectMinCardinality { n: a, ope: r, bce: Box::new(ce_class(c)) },
        ),
{
    lemma_find_qualifier(qs, "cardinality"@);
    if find_qualifier(qs, "cardinality"@) is Some {
        assert(false);
    }
    lemma_find_qualifier(qs, "maxCardinality"@);
    if find_qualifier(qs, "maxCardinality"@) is Some {
        assert(false);
    }
}

/// Removing the minimum bound leaves the maximum restriction standing
/// alone, over the complement of the filler, as the mapping writes a lone
/// nonzero maximum.
pub proof fn lemma_max_alone(
    qs: Seq<Qualifier>,
    r: Seq<char>,
    c: Seq<char>,
    class_level: bool,
    b: u32,
)
    requires
        forall|i: int| 0 <= i < qs.len() ==> !key_is(#[trigger] qs[i], "cardinality"@),
        forall|i: int| 0 <= i < qs.len() ==> !key_is(#[trigger] qs[i], "minCardinality"@),
        ({
            let qb = find_qualifier(qs, "maxCardinality"@);
            qb is Some && parse_u32_spec(qb->Some_0.value@) == Some(b)
        }),
        1 <= b <= 0x7fff_ffff,
    ensures
        rel_ce_spec(qs, r, c, class_level) == Ok::<ClassExpressionView, ErrorView>(
            ClassExpressionView::ObjectMaxCardinality {
                n: b,
                ope: r,
                bce: Box::new(ClassExpressionView::ObjectComplementOf(Box::new(ce_class(c)))),
            },
        ),
{
    lemma_find_qualifier(qs, "cardinality"@);
    if find_qualifier(qs, "cardinality"@) is Some {
        assert(false);
    }
    lemma_find_qualifier(qs, "minCardinality"@);
    if find_qualifier(qs, "minCardinality"@) is Some {
        assert(false);
    }
    let qb = find_qualifier(qs, "maxCardinality"@)->Some_0;
    lemma_parse_u32_as_i32(qb.value@, b);
}

// ---------------------------------------------------------------------------
// One declaration and one identifier record per term frame
// ---------------------------------------------------------------------------

/// No element of the sequence repeats.
pub open spec fn pairwise_distinct(s: Seq<AnnotatedComponentView>) -> bool {
    forall|i: int, j: int| 0 <= i < j < s.len() ==> #[trigger] s[i] != #[trigger] s[j]
}

/// Set-like insertion keeps the sequence duplicate-free and never removes
/// an element.
pub proof fn lemma_insert_component_props(s: Seq<AnnotatedComponentView>, x: AnnotatedComponentView)
    ensures
        pairwise_distinct(s) ==> pairwise_distinct(insert_component(s, x)),
        insert_component(s, x).contains(x),
        forall|y: AnnotatedComponentView|
            s.contains(y) ==> #[trigger] insert_component(s, x).contains(y),
        forall|y: AnnotatedComponentView| #[trigger]
            insert_component(s, x).contains(y) ==> s.contains(y) || y == x,
{
    if !s.contains(x) {
        let t = s.push(x);
        assert(t[s.len() as int] == x);
        assert(t.contains(x));
        assert(forall|y: AnnotatedComponentView| s.contains(y) ==> #[trigger] t.contains(y)) by {
            assert(forall|i: int| 0 <= i < s.len() ==> t[i] == s[i]);
        }
        if pairwise_distinct(s) {
            assert forall|i: int, j: int| 0 <= i < j < t.len() implies #[trigger] t[i] != #[trigger] t[j] by {
                if j == s.len() {
                    assert(t[j] == x);
                    assert(t[i] == s[i]);
                    assert(!s.contains(x));
                }
            }
        }
    }
}

/// The declaration a term frame opens with.
pub open spec fn term_declaration(frame: TermFrame, ctx: CtxView) -> AnnotatedComponentView {
    plain(ComponentView::DeclareClass(resolve_ident(ctx, frame.id@)))
}

/// The identifier record a term frame opens with.
pub open spec fn term_id_record(frame: TermFrame, ctx: CtxView) -> AnnotatedComponentView {
    plain(
        assertion(
            resolve_ident(ctx, frame.id@),
            ap_id(),
            simple_lit(id_serialized(frame.id@)),
        ),
    )
}

proof fn lemma_term_lines_acc_keeps(
    lines: Seq<Line<TermClause>>,
    ctx: CtxView,
    acc0: TermAcc,
    d: AnnotatedComponentView,
    a: AnnotatedComponentView,
)
    requires
        pairwise_distinct(acc0.comps),
        acc0.comps.contains(d),
        acc0.comps.contains(a),
    ensures
        term_lines_acc(lines, ctx, acc0) matches Ok(acc) ==> pairwise_distinct(acc.comps)
            && acc.comps.contains(d) && acc.comps.contains(a),
    decreases lines.len(),
{
    if lines.len() > 0 {
        lemma_term_lines_acc_keeps(lines.drop_last(), ctx, acc0, d, a);
        match term_lines_acc(lines.drop_last(), ctx, acc0) {
            Err(_) => {},
            Ok(acc) => {
                match term_line_component(lines.last(), ctx) {
                    Err(_) => {},
                    Ok(oc) => {
                        match oc {
                            None => {},
                            Some(ac) => {
                                lemma_insert_component_props(acc.comps, ac);
                            },
                        }
                    },
                }
            },
        }
    }
}

/// A translated term frame holds exactly one class declaration for its
/// identifier and exactly one `oboInOwl:id` record of its original text:
/// both are present, and no component of the frame's output repeats.
pub proof fn lemma_term_frame_declares_once(frame: TermFrame, ctx: CtxView)
    ensures
        term_frame_components(frame, ctx) matches Ok(cs) ==> cs.contains(
            term_declaration(frame, ctx),
        ) && cs.contains(term_id_record(frame, ctx)) && pairwise_distinct(cs),
{
    let d = term_declaration(frame, ctx);
    let a = term_id_record(frame, ctx);
    let init = term_frame_init(frame, ctx);
    assert(d != a);
    lemma_insert_component_props(Seq::empty(), d);
    lemma_insert_component_props(insert_component(Seq::empty(), d), a);
    assert(pairwise_distinct(Seq::<AnnotatedComponentView>::empty()));
    assert(init.comps.contains(d));
    assert(init.comps.contains(a));
    assert(pairwise_distinct(init.comps));
    lemma_term_lines_acc_keeps(frame.lines@, ctx, init, d, a);
    match term_lines_acc(frame.lines@, ctx, init) {
        Err(_) => {},
        Ok(acc) => {
            let c1 = if acc.inters.len() > 0 {
                insert_component(
                    acc.comps,
                    AnnotatedComponentView {
                        component: ComponentView::EquivalentClasses(
                            seq![
                                ce_class(resolve_ident(ctx, frame.id@)),
                                ClassExpressionView::ObjectIntersectionOf(acc.inters),
                            ],
                        ),
                        ann: acc.inters_ann,
                    },
                )
            } else {
                acc.comps
            };
            if acc.inters.len() > 0 {
                lemma_insert_component_props(
                    acc.comps,
                    AnnotatedComponentView {
                        component: ComponentView::EquivalentClasses(
                            seq![
                                ce_class(resolve_ident(ctx, frame.id@)),
                                ClassExpressionView::ObjectIntersectionOf(acc.inters),
                            ],
                        ),
                        ann: acc.inters_ann,
                    },
                );
            }
            if acc.unions.len() > 0 {
                lemma_insert_component_props(
                    c1,
                    AnnotatedComponentView {
                        component: ComponentView::EquivalentClasses(
                            seq![
                                ce_class(resolve_ident(ctx, frame.id@)),
                                ClassExpressionView::ObjectUnionOf(acc.unions),
                            ],
                        ),
                        ann: acc.unions_ann,
                    },
                );
            }
        },
    }
}

/// Inserting many elements keeps the sequence duplicate-free and keeps
/// every element already present.
pub proof fn lemma_insert_components_props(
    s: Seq<AnnotatedComponentView>,
    items: Seq<AnnotatedComponentView>,
)
    ensures
        pairwise_distinct(s) ==> pairwise_distinct(crate::owl::insert_components(s, items)),
        forall|y: AnnotatedComponentView|
            s.contains(y) ==> #[trigger] crate::owl::insert_components(s, items).contains(y),
    decreases items.len(),
{
    if items.len() > 0 {
        lemma_insert_components_props(s, items.drop_last());
        lemma_insert_component_props(
            crate::owl::insert_components(s, items.drop_last()),
            items.last(),
        );
    }
}

proof fn lemma_doc_entities_fold_distinct(
    es: Seq<crate::ast::EntityFrame>,
    ctx: CtxView,
    acc0: Seq<AnnotatedComponentView>,
)
    requires
        pairwise_distinct(acc0),
    ensures
        crate::doc::doc_entities_fold(es, ctx, acc0) matches Ok(out) ==> pairwise_distinct(out.0),
    decreases es.len(),
{
    if es.len() > 0 {
        lemma_doc_entities_fold_distinct(es.drop_last(), ctx, acc0);
        match crate::doc::doc_entities_fold(es.drop_last(), ctx, acc0) {
            Err(_) => {},
            Ok((acc, ctx1)) => {
                let entity = es.last();
                let ctx2 = CtxView {
                    current_frame: resolve_ident(ctx1, entity.spec_id()@),
                    ..ctx1
                };
                match entity {
                    crate::ast::EntityFrame::Term(f) => {
                        match term_frame_components(f, ctx2) {
                            Err(_) => {},
                            Ok(cs) => {
                                lemma_insert_components_props(acc, cs);
                            },
                        }
                    },
                    crate::ast::EntityFrame::Typedef(f) => {
                        lemma_insert_components_props(
                            acc,
                            crate::typedef::typedef_frame_components(f, ctx2),
                        );
                    },
                    crate::ast::EntityFrame::Instance(_) => {},
                }
            },
        }
    }
}

/// The translated document never repeats a component: the output collection
/// is a set under structural equality. With the per-frame law above, the
/// whole output therefore holds exactly one class declaration and one
/// identifier record for each translated term.
pub proof fn lemma_output_distinct(doc: crate::ast::OboDoc)
    ensures
        crate::doc::doc_into_owl(doc) matches Ok(out) ==> pairwise_distinct(out.0),
{
    if crate::context::ontology_count(doc.header@) == 1 && crate::context::iri_ok(
        crate::context::composed_ontology_iri(doc.header@),
    ) {
        let ctx = crate::context::doc_context(doc);
        let base = crate::doc::doc_base_components(doc);
        assert(pairwise_distinct(base)) by {
            let e0 = Seq::<AnnotatedComponentView>::empty();
            assert(pairwise_distinct(e0));
            let oid = plain(crate::doc::ontology_id_component(doc.header@));
            lemma_insert_component_props(e0, oid);
            let s1 = insert_component(e0, oid);
            lemma_insert_components_props(s1, crate::header::header_components(doc.header@, ctx));
            let s2 = crate::owl::insert_components(
                s1,
                crate::header::header_components(doc.header@, ctx),
            );
            lemma_insert_component_props(
                s2,
                plain(ComponentView::Import(crate::constants::import_obo_in_owl())),
            );
        }
        lemma_doc_entities_fold_distinct(doc.entities@, ctx, base);
    }
}

// ---------------------------------------------------------------------------
// The merge of intersection clauses
// ---------------------------------------------------------------------------

/// A term frame whose clauses are exactly two plain `intersection_of`
/// clauses, each without qualifiers, translates to exactly three
/// components: the declaration, the identifier record, and one single
/// equivalence whose second operand is the intersection of the two
/// referenced classes. Two separate equivalence axioms are never produced.
#[verifier::rlimit(30)]
pub proof fn lemma_intersection_merge(frame: TermFrame, a: Ident, b: Ident, ctx: CtxView)
    requires
        frame.lines@.len() == 2,
        frame.lines@[0].clause == TermClause::IntersectionOf(None, a),
        frame.lines@[1].clause == TermClause::IntersectionOf(None, b),
        frame.lines@[0].qualifiers@ == Seq::<Qualifier>::empty(),
        frame.lines@[1].qualifiers@ == Seq::<Qualifier>::empty(),
    ensures
        term_frame_components(frame, ctx) == Ok::<_, ErrorView>(
            seq![
                term_declaration(frame, ctx),
                term_id_record(frame, ctx),
                AnnotatedComponentView {
                    component: ComponentView::EquivalentClasses(
                        seq![
                            ce_class(resolve_ident(ctx, frame.id@)),
                            ClassExpressionView::ObjectIntersectionOf(
                                seq![
                                    ce_class(resolve_ident(ctx, a@)),
                                    ce_class(resolve_ident(ctx, b@)),
                                ],
                            ),
                        ],
                    ),
                    ann: Seq::empty(),
                },
            ],
        ),
{
    let d = term_declaration(frame, ctx);
    let idr = term_id_record(frame, ctx);
    let init = term_frame_init(frame, ctx);
    assert(d != idr);
    assert(init.comps =~= seq![d, idr]);

    let lines = frame.lines@;
    let l0 = lines[0];
    let l1 = lines[1];
    assert(lines.drop_last() =~= seq![l0]);
    assert((seq![l0]).drop_last() =~= Seq::<Line<TermClause>>::empty());

    assert(term_lines_acc(Seq::<Line<TermClause>>::empty(), ctx, init) == Ok::<
        TermAcc,
        crate::error::ErrorView,
    >(init));

    assert(qualifier_annotations(l0.qualifiers@, ctx) =~= Seq::<AnnotationView>::empty());
    assert(qualifier_annotations(l1.qualifiers@, ctx) =~= Seq::<AnnotationView>::empty());
    let ac0 = AnnotatedComponentView {
        component: ComponentView::EquivalentClasses(
            seq![
                ce_class(ctx.current_frame),
                ClassExpressionView::ObjectIntersectionOf(
                    seq![ce_class(resolve_ident(ctx, a@))],
                ),
            ],
        ),
        ann: Seq::empty(),
    };
    let ac1 = AnnotatedComponentView {
        component: ComponentView::EquivalentClasses(
            seq![
                ce_class(ctx.current_frame),
                ClassExpressionView::ObjectIntersectionOf(
                    seq![ce_class(resolve_ident(ctx, b@))],
                ),
            ],
        ),
        ann: Seq::empty(),
    };
    let c0 = term_clause_component(l0.clause, ctx)->Some_0;
    assert(c0 == ac0);
    assert(insert_annotations(c0.ann, qualifier_annotations(l0.qualifiers@, ctx)) =~= Seq::<
        AnnotationView,
    >::empty());
    assert(term_line_component(l0, ctx) == Ok::<Option<AnnotatedComponentView>, ErrorView>(
        Some(ac0),
    ));
    let c1 = term_clause_component(l1.clause, ctx)->Some_0;
    assert(c1 == ac1);
    assert(insert_annotations(c1.ann, qualifier_annotations(l1.qualifiers@, ctx)) =~= Seq::<
        AnnotationView,
    >::empty());
    assert(term_line_component(l1, ctx) == Ok::<Option<AnnotatedComponentView>, ErrorView>(
        Some(ac1),
    ));

    assert(crate::term::is_intersection_equiv(ac0.component));
    assert(crate::term::is_intersection_equiv(ac1.component));

    assert(term_lines_acc(seq![l0], ctx, init) == Ok::<TermAcc, ErrorView>(
        term_acc_step(init, Some(ac0)),
    ));
    let acc1 = term_acc_step(init, Some(ac0));
    assert(acc1.inters =~= seq![ce_class(resolve_ident(ctx, a@))]);
    assert(acc1.inters_ann =~= Seq::<AnnotationView>::empty());
    assert(acc1.comps == init.comps);

    assert(lines.last() == l1);
    assert(term_lines_acc(lines, ctx, init) == Ok::<TermAcc, ErrorView>(
        term_acc_step(acc1, Some(ac1)),
    ));
    let acc2 = term_acc_step(acc1, Some(ac1));
    assert(acc2.inters =~= seq![
        ce_class(resolve_ident(ctx, a@)),
        ce_class(resolve_ident(ctx, b@)),
    ]);
    assert(acc2.inters_ann =~= Seq::<AnnotationView>::empty());
    assert(acc2.comps == init.comps);
    assert(acc2.unions.len() == 0);

    let merged = AnnotatedComponentView {
        component: ComponentView::EquivalentClasses(
            seq![
                ce_class(resolve_ident(ctx, frame.id@)),
                ClassExpressionView::ObjectIntersectionOf(acc2.inters),
            ],
        ),
        ann: acc2.inters_ann,
    };
    assert(!init.comps.contains(merged)) by {
        assert(init.comps[0] == d);
        assert(init.comps[1] == idr);
    }
    assert(insert_component(init.comps, merged) =~= seq![d, idr, merged]);
    assert(term_frame_components(frame, ctx) == Ok::<_, ErrorView>(seq![d, idr, merged]));
}

} // verus!
