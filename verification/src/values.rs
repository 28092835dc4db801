//! Translators for the primitive OBO values: qualifiers to annotations,
//! cross-references, definitions, synonyms, property values and creation
//! dates.

use vstd::prelude::*;

use crate::ast::CreationDate;
use crate::ast::Definition;
use crate::ast::Ident;
use crate::ast::IdentView;
use crate::ast::PropertyValue;
use crate::ast::Qualifier;
use crate::ast::Synonym;
use crate::ast::SynonymScope;
use crate::ast::Xref;
use crate::ast::id_serialized;
use crate::ast::xsd_date_chars;
use crate::ast::xsd_iso_datetime_chars;
use crate::constants::ap_has_dbxref;
use crate::constants::ap_has_dbxref_str;
use crate::constants::ap_has_synonym_type;
use crate::constants::ap_has_synonym_type_str;
use crate::constants::ap_has_broad_synonym;
use crate::constants::ap_has_broad_synonym_str;
use crate::constants::ap_has_exact_synonym;
use crate::constants::ap_has_exact_synonym_str;
use crate::constants::ap_has_narrow_synonym;
use crate::constants::ap_has_narrow_synonym_str;
use crate::constants::ap_has_related_synonym;
use crate::constants::ap_has_related_synonym_str;
use crate::constants::iao_definition;
use crate::constants::iao_definition_str;
use crate::constants::xsd_date;
use crate::constants::xsd_date_str;
use crate::constants::xsd_datetime;
use crate::constants::xsd_datetime_str;
use crate::constants::xsd_string;
use crate::context::Context;
use crate::context::CtxView;
use crate::context::resolve_ident;
use crate::expr::key_is;
use crate::owl::Annotation;
use crate::owl::AnnotationValue;
use crate::owl::AnnotatedComponent;
use crate::owl::AnnotatedComponentView;
use crate::owl::AnnotationView;
use crate::owl::AnnotationValueView;
use crate::owl::ComponentView;
use crate::owl::Component;
use crate::owl::Literal;
use crate::owl::LiteralView;
use crate::owl::anns_view;
use crate::owl::insert_annotation;
use crate::owl::push_unique_annotation;
use crate::strings::str_eq;

verus! {

broadcast use vstd::std_specs::vec::group_vec_axioms;

// ---------------------------------------------------------------------------
// Specification-level constructors
// ---------------------------------------------------------------------------

pub open spec fn simple_lit(s: Seq<char>) -> AnnotationValueView {
    AnnotationValueView::Literal(LiteralView::Simple { literal: s })
}

pub open spec fn typed_lit(s: Seq<char>, dt: Seq<char>) -> AnnotationValueView {
    AnnotationValueView::Literal(LiteralView::Datatype { literal: s, datatype_iri: dt })
}

pub open spec fn ann_of(ap: Seq<char>, av: AnnotationValueView) -> AnnotationView {
    AnnotationView { ap, av }
}

/// An annotation assertion on `subject`, with no attached annotations.
pub open spec fn assertion(
    subject: Seq<char>,
    ap: Seq<char>,
    av: AnnotationValueView,
) -> ComponentView {
    ComponentView::AnnotationAssertion { subject, ann: ann_of(ap, av) }
}

/// A component carrying no annotations.
pub open spec fn plain(c: ComponentView) -> AnnotatedComponentView {
    AnnotatedComponentView { component: c, ann: Seq::empty() }
}

// ---------------------------------------------------------------------------
// Executable constructors
// ---------------------------------------------------------------------------

/// A plain-literal annotation value.
pub fn mk_simple(text: String) -> (r: AnnotationValue)
    ensures
        r@ == simple_lit(text@),
{
    AnnotationValue::Literal(Literal::Simple { literal: text })
}

/// A typed-literal annotation value.
pub fn mk_typed(text: String, datatype_iri: String) -> (r: AnnotationValue)
    ensures
        r@ == typed_lit(text@, datatype_iri@),
{
    AnnotationValue::Literal(Literal::Datatype { literal: text, datatype_iri })
}

/// An annotation assertion component with no attached annotations.
pub fn mk_assertion(subject: String, ap: String, av: AnnotationValue) -> (r: AnnotatedComponent)
    ensures
        r@ == plain(assertion(subject@, ap@, av@)),
{
    let r = AnnotatedComponent {
        component: Component::AnnotationAssertion { subject, ann: Annotation { ap, av } },
        ann: Vec::new(),
    };
    proof {
        assert(anns_view(r.ann@) =~= Seq::<AnnotationView>::empty());
    }
    r
}

/// An annotation assertion on the frame being translated.
pub fn frame_assertion(ctx: &Context, ap: &'static str, av: AnnotationValue) -> (r:
    AnnotatedComponent)
    ensures
        r@ == plain(assertion(ctx@.current_frame, ap@, av@)),
{
    mk_assertion(ctx.current_frame().clone(), String::from_str(ap), av)
}

// ---------------------------------------------------------------------------
// Cross-references
// ---------------------------------------------------------------------------

/// The annotation a cross-reference becomes: `oboInOwl:hasDbXref` with the
/// reference's serialized identifier as a plain literal.
pub open spec fn xref_annotation(x: Xref) -> AnnotationView {
    ann_of(ap_has_dbxref(), simple_lit(id_serialized(x.id@)))
}

/// The deduplicated annotations of a cross-reference list, in order.
pub open spec fn xrefs_annotations(xs: Seq<Xref>) -> Seq<AnnotationView>
    decreases xs.len(),
{
    if xs.len() == 0 {
        Seq::empty()
    } else {
        insert_annotation(xrefs_annotations(xs.drop_last()), xref_annotation(xs.last()))
    }
}

/// Translate one cross-reference.
pub fn translate_xref(x: &Xref) -> (r: Annotation)
    ensures
        r@ == xref_annotation(*x),
{
    Annotation {
        ap: String::from_str(ap_has_dbxref_str()),
        av: mk_simple(x.id.serialized()),
    }
}

/// Translate a cross-reference list into a set-like annotation list.
pub fn translate_xrefs(xs: &Vec<Xref>) -> (r: Vec<Annotation>)
    ensures
        anns_view(r@) == xrefs_annotations(xs@),
{
    let mut out: Vec<Annotation> = Vec::new();
    proof {
        assert(anns_view(out@) =~= Seq::<AnnotationView>::empty());
        assert(xs@.subrange(0, 0) =~= Seq::<Xref>::empty());
    }
    let mut i: usize = 0;
    while i < xs.len()
        invariant
            i <= xs@.len(),
            anns_view(out@) == xrefs_annotations(xs@.subrange(0, i as int)),
        decreases xs@.len() - i,
    {
        let a = translate_xref(&xs[i]);
        push_unique_annotation(&mut out, a);
        proof {
            let prefix1 = xs@.subrange(0, i + 1int);
            assert(prefix1.drop_last() =~= xs@.subrange(0, i as int));
            assert(prefix1.last() == xs@[i as int]);
        }
        i = i + 1;
    }
    proof {
        assert(xs@.subrange(0, xs@.len() as int) =~= xs@);
    }
    out
}

// ---------------------------------------------------------------------------
// Qualifiers
// ---------------------------------------------------------------------------

/// The reserved qualifier keys that the expression builder consumes
/// structurally; they never become annotations.
pub open spec fn reserved_qualifier(q: Qualifier) -> bool {
    key_is(q, "cardinality"@) || key_is(q, "minCardinality"@) || key_is(q, "maxCardinality"@)
        || key_is(q, "gci_relation"@) || key_is(q, "gci_filler"@) || key_is(q, "all_some"@)
        || key_is(q, "all_only"@)
}

/// The annotation a non-reserved qualifier becomes: its resolved key
/// applied to its value as a plain literal.
pub open spec fn qualifier_annotation(q: Qualifier, ctx: CtxView) -> AnnotationView {
    ann_of(resolve_ident(ctx, q.key@), simple_lit(q.value@))
}

/// The deduplicated annotations of a qualifier list, reserved keys left
/// out.
pub open spec fn qualifier_annotations(qs: Seq<Qualifier>, ctx: CtxView) -> Seq<AnnotationView>
    decreases qs.len(),
{
    if qs.len() == 0 {
        Seq::empty()
    } else if reserved_qualifier(qs.last()) {
        qualifier_annotations(qs.drop_last(), ctx)
    } else {
        insert_annotation(
            qualifier_annotations(qs.drop_last(), ctx),
            qualifier_annotation(qs.last(), ctx),
        )
    }
}

fn is_reserved_qualifier(q: &Qualifier) -> (r: bool)
    ensures
        r == reserved_qualifier(*q),
{
    match &q.key {
        Ident::Unprefixed { local } => {
            str_eq(local.as_str(), "cardinality") || str_eq(local.as_str(), "minCardinality")
                || str_eq(local.as_str(), "maxCardinality") || str_eq(
                local.as_str(),
                "gci_relation",
            ) || str_eq(local.as_str(), "gci_filler") || str_eq(local.as_str(), "all_some")
                || str_eq(local.as_str(), "all_only")
        },
        _ => false,
    }
}

/// Translate a qualifier list into the annotations it attaches to its
/// clause's axiom.
pub fn translate_qualifiers(ctx: &Context, qs: &Vec<Qualifier>) -> (r: Vec<Annotation>)
    ensures
        anns_view(r@) == qualifier_annotations(qs@, ctx@),
{
    let mut out: Vec<Annotation> = Vec::new();
    proof {
        assert(anns_view(out@) =~= Seq::<AnnotationView>::empty());
        assert(qs@.subrange(0, 0) =~= Seq::<Qualifier>::empty());
    }
    let mut i: usize = 0;
    while i < qs.len()
        invariant
            i <= qs@.len(),
            anns_view(out@) == qualifier_annotations(qs@.subrange(0, i as int), ctx@),
        decreases qs@.len() - i,
    {
        proof {
            let prefix1 = qs@.subrange(0, i + 1int);
            assert(prefix1.drop_last() =~= qs@.subrange(0, i as int));
            assert(prefix1.last() == qs@[i as int]);
        }
        if !is_reserved_qualifier(&qs[i]) {
            let a = Annotation {
                ap: ctx.resolve(&qs[i].key),
                av: mk_simple(qs[i].value.clone()),
            };
            push_unique_annotation(&mut out, a);
        }
        i = i + 1;
    }
    proof {
        assert(qs@.subrange(0, qs@.len() as int) =~= qs@);
    }
    out
}

// ---------------------------------------------------------------------------
// Property values
// ---------------------------------------------------------------------------

/// Whether a datatype identifier denotes `xsd:string`: either the full
/// URL, a prefix resolving to it through the idspace table, or the
/// conventional `xsd:string` under an undeclared `xsd` prefix.
pub open spec fn is_xsd_string(id: IdentView, ctx: CtxView) -> bool {
    match id {
        IdentView::Unprefixed { .. } => false,
        IdentView::Url { url } => url == xsd_string(),
        IdentView::Prefixed { prefix, local } => if ctx.idspaces.contains_key(prefix) {
            ctx.idspaces[prefix] + local == xsd_string()
        } else {
            prefix == "xsd"@ && local == "string"@
        },
    }
}

/// The annotation a property value becomes: the resolved relation applied
/// to an IRI, or to a literal that is plain exactly when its datatype is
/// `xsd:string`.
pub open spec fn property_value_annotation(pv: PropertyValue, ctx: CtxView) -> AnnotationView {
    match pv {
        PropertyValue::Resource { property, target } => ann_of(
            resolve_ident(ctx, property@),
            AnnotationValueView::Iri(resolve_ident(ctx, target@)),
        ),
        PropertyValue::Literal { property, literal, datatype } => ann_of(
            resolve_ident(ctx, property@),
            if is_xsd_string(datatype@, ctx) {
                simple_lit(literal@)
            } else {
                typed_lit(literal@, resolve_ident(ctx, datatype@))
            },
        ),
    }
}

fn datatype_is_xsd_string(ctx: &Context, id: &Ident) -> (r: bool)
    ensures
        r == is_xsd_string(id@, ctx@),
{
    match id {
        Ident::Unprefixed { .. } => false,
        Ident::Url { url } => str_eq(url.as_str(), xsd_string_str_local()),
        Ident::Prefixed { prefix, local } => {
            let resolved = ctx.resolve(id);
            let known = ctx.has_idspace(prefix.as_str());
            if known {
                str_eq(resolved.as_str(), xsd_string_str_local())
            } else {
                str_eq(prefix.as_str(), "xsd") && str_eq(local.as_str(), "string")
            }
        },
    }
}

fn xsd_string_str_local() -> (r: &'static str)
    ensures
        r@ == xsd_string(),
{
    crate::constants::xsd_string_str()
}

/// Translate a property value into an annotation.
pub fn translate_property_value(ctx: &Context, pv: &PropertyValue) -> (r: Annotation)
    ensures
        r@ == property_value_annotation(*pv, ctx@),
{
    match pv {
        PropertyValue::Resource { property, target } => Annotation {
            ap: ctx.resolve(property),
            av: AnnotationValue::Iri(ctx.resolve(target)),
        },
        PropertyValue::Literal { property, literal, datatype } => {
            let av = if datatype_is_xsd_string(ctx, datatype) {
                mk_simple(literal.clone())
            } else {
                mk_typed(literal.clone(), ctx.resolve(datatype))
            };
            Annotation { ap: ctx.resolve(property), av }
        },
    }
}

// ---------------------------------------------------------------------------
// Definitions and synonyms
// ---------------------------------------------------------------------------

/// The component a definition clause becomes: an `IAO:0000115` assertion
/// on the current frame, annotated with the definition's cross-references.
pub open spec fn definition_component(d: Definition, ctx: CtxView) -> AnnotatedComponentView {
    AnnotatedComponentView {
        component: assertion(ctx.current_frame, iao_definition(), simple_lit(d.text@)),
        ann: xrefs_annotations(d.xrefs@),
    }
}

/// Translate a definition clause.
pub fn translate_definition(ctx: &Context, d: &Definition) -> (r: AnnotatedComponent)
    ensures
        r@ == definition_component(*d, ctx@),
{
    AnnotatedComponent {
        component: Component::AnnotationAssertion {
            subject: ctx.current_frame().clone(),
            ann: Annotation {
                ap: String::from_str(iao_definition_str()),
                av: mk_simple(d.text.clone()),
            },
        },
        ann: translate_xrefs(&d.xrefs),
    }
}

/// The annotation property of each synonym scope.
pub open spec fn scope_property(s: SynonymScope) -> Seq<char> {
    match s {
        SynonymScope::Broad => ap_has_broad_synonym(),
        SynonymScope::Exact => ap_has_exact_synonym(),
        SynonymScope::Narrow => ap_has_narrow_synonym(),
        SynonymScope::Related => ap_has_related_synonym(),
    }
}

/// The annotations attached to a synonym assertion: its cross-references,
/// and its declared type if it has one.
pub open spec fn synonym_annotations(s: Synonym, ctx: CtxView) -> Seq<AnnotationView> {
    match s.ty {
        Some(ty) => insert_annotation(
            xrefs_annotations(s.xrefs@),
            ann_of(ap_has_synonym_type(), AnnotationValueView::Iri(resolve_ident(ctx, ty@))),
        ),
        None => xrefs_annotations(s.xrefs@),
    }
}

/// The component a synonym clause becomes: a scoped assertion on the
/// current frame, annotated with the synonym's cross-references and type.
pub open spec fn synonym_component(s: Synonym, ctx: CtxView) -> AnnotatedComponentView {
    AnnotatedComponentView {
        component: assertion(ctx.current_frame, scope_property(s.scope), simple_lit(
            s.description@,
        )),
        ann: synonym_annotations(s, ctx),
    }
}

/// The executable twin of `scope_property`.
pub fn scope_property_str_pub(s: SynonymScope) -> (r: &'static str)
    ensures
        r@ == scope_property(s),
{
    match s {
        SynonymScope::Broad => ap_has_broad_synonym_str(),
        SynonymScope::Exact => ap_has_exact_synonym_str(),
        SynonymScope::Narrow => ap_has_narrow_synonym_str(),
        SynonymScope::Related => ap_has_related_synonym_str(),
    }
}

/// Translate a synonym clause.
pub fn translate_synonym(ctx: &Context, s: &Synonym) -> (r: AnnotatedComponent)
    ensures
        r@ == synonym_component(*s, ctx@),
{
    let mut anns = translate_xrefs(&s.xrefs);
    match &s.ty {
        Some(ty) => {
            let a = Annotation {
                ap: String::from_str(ap_has_synonym_type_str()),
                av: AnnotationValue::Iri(ctx.resolve(ty)),
            };
            push_unique_annotation(&mut anns, a);
        },
        None => {},
    }
    AnnotatedComponent {
        component: Component::AnnotationAssertion {
            subject: ctx.current_frame().clone(),
            ann: Annotation {
                ap: String::from_str(scope_property_str_pub(s.scope)),
                av: mk_simple(s.description.clone()),
            },
        },
        ann: anns,
    }
}

// ---------------------------------------------------------------------------
// Creation dates
// ---------------------------------------------------------------------------

/// The literal a creation date becomes: an `xsd:date` for a plain date, an
/// `xsd:dateTime` for a full datetime.
pub open spec fn creation_date_value(d: CreationDate) -> AnnotationValueView {
    match d {
        CreationDate::Date(date) => typed_lit(xsd_date_chars(date), xsd_date()),
        CreationDate::DateTime(dt) => typed_lit(xsd_iso_datetime_chars(dt), xsd_datetime()),
    }
}

/// Translate a creation date into an annotation value.
pub fn translate_creation_date(d: &CreationDate) -> (r: AnnotationValue)
    ensures
        r@ == creation_date_value(*d),
{
    match d {
        CreationDate::Date(date) => mk_typed(date.to_xsd_date(), String::from_str(xsd_date_str())),
        CreationDate::DateTime(dt) => mk_typed(
            dt.to_xsd_datetime(),
            String::from_str(xsd_datetime_str()),
        ),
    }
}

} // verus!
