//! The OWL2 output model: annotations, literals, class expressions and
//! annotated components, together with their mathematical views (strings
//! as character sequences, vectors as sequences) and executable structural
//! equality.
//!
//! IRIs are held as plain strings; interning and serialization belong to
//! the OWL writer, not to the translation.

use vstd::prelude::*;

verus! {

broadcast use vstd::std_specs::vec::group_vec_axioms;

/// An OWL literal: either a plain string or a string typed by a datatype IRI.
#[derive(Debug, Clone, PartialEq, Eq)]
pub enum Literal {
    Simple { literal: String },
    Datatype { literal: String, datatype_iri: String },
}

/// The value of an annotation: an IRI or a literal.
#[derive(Debug, Clone, PartialEq, Eq)]
pub enum AnnotationValue {
    Iri(String),
    Literal(Literal),
}

/// An annotation: a property IRI applied to a value.
#[derive(Debug, Clone, PartialEq, Eq)]
pub struct Annotation {
    pub ap: String,
    pub av: AnnotationValue,
}

/// An OWL class expression, as the qualifier-driven builder produces it.
/// Object property expressions are always named properties here, so they
/// are held as plain IRIs.
#[derive(Debug, PartialEq, Eq)]
pub enum ClassExpression {
    Class(String),
    ObjectSomeValuesFrom { ope: String, bce: Box<ClassExpression> },
    ObjectAllValuesFrom { ope: String, bce: Box<ClassExpression> },
    ObjectComplementOf(Box<ClassExpression>),
    ObjectIntersectionOf(Vec<ClassExpression>),
    ObjectUnionOf(Vec<ClassExpression>),
    ObjectExactCardinality { n: u32, ope: String, bce: Box<ClassExpression> },
    ObjectMinCardinality { n: u32, ope: String, bce: Box<ClassExpression> },
    ObjectMaxCardinality { n: u32, ope: String, bce: Box<ClassExpression> },
    ObjectHasValue { ope: String, i: String },
}

/// The subject of a sub-object-property axiom: a named property or a chain.
#[derive(Debug, PartialEq, Eq)]
pub enum SubObjectProperty {
    Property(String),
    Chain(Vec<String>),
}

/// One OWL component: an axiom, an ontology annotation, or the ontology
/// identifier itself.
#[derive(Debug, PartialEq, Eq)]
pub enum Component {
    OntologyID { iri: Option<String>, viri: Option<String> },
    Import(String),
    OntologyAnnotation(Annotation),
    DeclareClass(String),
    DeclareObjectProperty(String),
    DeclareAnnotationProperty(String),
    AnnotationAssertion { subject: String, ann: Annotation },
    SubClassOf { sub: ClassExpression, sup: ClassExpression },
    EquivalentClasses(Vec<ClassExpression>),
    DisjointClasses(Vec<ClassExpression>),
    SubAnnotationPropertyOf { sub: String, sup: String },
    SubObjectPropertyOf { sub: SubObjectProperty, sup: String },
    EquivalentObjectProperties(Vec<String>),
    DisjointObjectProperties(Vec<String>),
    InverseObjectProperties(String, String),
    ObjectPropertyDomain { ope: String, ce: ClassExpression },
    ObjectPropertyRange { ope: String, ce: ClassExpression },
    ReflexiveObjectProperty(String),
    SymmetricObjectProperty(String),
    AsymmetricObjectProperty(String),
    TransitiveObjectProperty(String),
    FunctionalObjectProperty(String),
    InverseFunctionalObjectProperty(String),
}

/// A component together with the annotations attached to it.
#[derive(Debug, PartialEq, Eq)]
pub struct AnnotatedComponent {
    pub component: Component,
    pub ann: Vec<Annotation>,
}

// ---------------------------------------------------------------------------
// Views
// ---------------------------------------------------------------------------

pub enum LiteralView {
    Simple { literal: Seq<char> },
    Datatype { literal: Seq<char>, datatype_iri: Seq<char> },
}

pub enum AnnotationValueView {
    Iri(Seq<char>),
    Literal(LiteralView),
}

pub struct AnnotationView {
    pub ap: Seq<char>,
    pub av: AnnotationValueView,
}

pub enum ClassExpressionView {
    Class(Seq<char>),
    ObjectSomeValuesFrom { ope: Seq<char>, bce: Box<ClassExpressionView> },
    ObjectAllValuesFrom { ope: Seq<char>, bce: Box<ClassExpressionView> },
    ObjectComplementOf(Box<ClassExpressionView>),
    ObjectIntersectionOf(Seq<ClassExpressionView>),
    ObjectUnionOf(Seq<ClassExpressionView>),
    ObjectExactCardinality { n: u32, ope: Seq<char>, bce: Box<ClassExpressionView> },
    ObjectMinCardinality { n: u32, ope: Seq<char>, bce: Box<ClassExpressionView> },
    ObjectMaxCardinality { n: u32, ope: Seq<char>, bce: Box<ClassExpressionView> },
    ObjectHasValue { ope: Seq<char>, i: Seq<char> },
}

pub enum SubObjectPropertyView {
    Property(Seq<char>),
    Chain(Seq<Seq<char>>),
}

pub enum ComponentView {
    OntologyID { iri: Option<Seq<char>>, viri: Option<Seq<char>> },
    Import(Seq<char>),
    OntologyAnnotation(AnnotationView),
    DeclareClass(Seq<char>),
    DeclareObjectProperty(Seq<char>),
    DeclareAnnotationProperty(Seq<char>),
    AnnotationAssertion { subject: Seq<char>, ann: AnnotationView },
    SubClassOf { sub: ClassExpressionView, sup: ClassExpressionView },
    EquivalentClasses(Seq<ClassExpressionView>),
    DisjointClasses(Seq<ClassExpressionView>),
    SubAnnotationPropertyOf { sub: Seq<char>, sup: Seq<char> },
    SubObjectPropertyOf { sub: SubObjectPropertyView, sup: Seq<char> },
    EquivalentObjectProperties(Seq<Seq<char>>),
    DisjointObjectProperties(Seq<Seq<char>>),
    InverseObjectProperties(Seq<char>, Seq<char>),
    ObjectPropertyDomain { ope: Seq<char>, ce: ClassExpressionView },
    ObjectPropertyRange { ope: Seq<char>, ce: ClassExpressionView },
    ReflexiveObjectProperty(Seq<char>),
    SymmetricObjectProperty(Seq<char>),
    AsymmetricObjectProperty(Seq<char>),
    TransitiveObjectProperty(Seq<char>),
    FunctionalObjectProperty(Seq<char>),
    InverseFunctionalObjectProperty(Seq<char>),
}

pub struct AnnotatedComponentView {
    pub component: ComponentView,
    pub ann: Seq<AnnotationView>,
}

impl View for Literal {
    type V = LiteralView;

    open spec fn view(&self) -> LiteralView {
        match self {
            Literal::Simple { literal } => LiteralView::Simple { literal: literal@ },
            Literal::Datatype { literal, datatype_iri } => LiteralView::Datatype {
                literal: literal@,
                datatype_iri: datatype_iri@,
            },
        }
    }
}

impl View for AnnotationValue {
    type V = AnnotationValueView;

    open spec fn view(&self) -> AnnotationValueView {
        match self {
            AnnotationValue::Iri(iri) => AnnotationValueView::Iri(iri@),
            AnnotationValue::Literal(l) => AnnotationValueView::Literal(l@),
        }
    }
}

impl View for Annotation {
    type V = AnnotationView;

    open spec fn view(&self) -> AnnotationView {
        AnnotationView { ap: self.ap@, av: self.av@ }
    }
}

/// The view of a sequence of strings.
pub open spec fn strs_view(s: Seq<String>) -> Seq<Seq<char>> {
    s.map_values(|x: String| x@)
}

/// The view of a sequence of annotations.
pub open spec fn anns_view(s: Seq<Annotation>) -> Seq<AnnotationView> {
    s.map_values(|a: Annotation| a@)
}

pub open spec fn ce_view(ce: ClassExpression) -> ClassExpressionView
    decreases ce,
{
    match ce {
        ClassExpression::Class(iri) => ClassExpressionView::Class(iri@),
        ClassExpression::ObjectSomeValuesFrom { ope, bce } => {
            ClassExpressionView::ObjectSomeValuesFrom { ope: ope@, bce: Box::new(ce_view(*bce)) }
        },
        ClassExpression::ObjectAllValuesFrom { ope, bce } => {
            ClassExpressionView::ObjectAllValuesFrom { ope: ope@, bce: Box::new(ce_view(*bce)) }
        },
        ClassExpression::ObjectComplementOf(bce) => ClassExpressionView::ObjectComplementOf(
            Box::new(ce_view(*bce)),
        ),
        ClassExpression::ObjectIntersectionOf(v) => ClassExpressionView::ObjectIntersectionOf(
            ces_view(v@),
        ),
        ClassExpression::ObjectUnionOf(v) => ClassExpressionView::ObjectUnionOf(ces_view(v@)),
        ClassExpression::ObjectExactCardinality { n, ope, bce } => {
            ClassExpressionView::ObjectExactCardinality {
                n: n,
                ope: ope@,
                bce: Box::new(ce_view(*bce)),
            }
        },
        ClassExpression::ObjectMinCardinality { n, ope, bce } => {
            ClassExpressionView::ObjectMinCardinality {
                n: n,
                ope: ope@,
                bce: Box::new(ce_view(*bce)),
            }
        },
        ClassExpression::ObjectMaxCardinality { n, ope, bce } => {
            ClassExpressionView::ObjectMaxCardinality {
                n: n,
                ope: ope@,
                bce: Box::new(ce_view(*bce)),
            }
        },
        ClassExpression::ObjectHasValue { ope, i } => ClassExpressionView::ObjectHasValue {
            ope: ope@,
            i: i@,
        },
    }
}

pub open spec fn ces_view(s: Seq<ClassExpression>) -> Seq<ClassExpressionView>
    decreases s,
{
    if s.len() == 0 {
        Seq::empty()
    } else {
        ces_view(s.drop_last()).push(ce_view(s.last()))
    }
}

/// `ces_view` maps `ce_view` over the sequence, element by element.
pub proof fn lemma_ces_view(s: Seq<ClassExpression>)
    ensures
        ces_view(s).len() == s.len(),
        forall|i: int| 0 <= i < s.len() ==> #[trigger] ces_view(s)[i] == ce_view(s[i]),
    decreases s.len(),
{
    if s.len() > 0 {
        lemma_ces_view(s.drop_last());
    }
}

impl View for ClassExpression {
    type V = ClassExpressionView;

    open spec fn view(&self) -> ClassExpressionView {
        ce_view(*self)
    }
}

impl View for SubObjectProperty {
    type V = SubObjectPropertyView;

    open spec fn view(&self) -> SubObjectPropertyView {
        match self {
            SubObjectProperty::Property(iri) => SubObjectPropertyView::Property(iri@),
            SubObjectProperty::Chain(v) => SubObjectPropertyView::Chain(strs_view(v@)),
        }
    }
}

impl View for Component {
    type V = ComponentView;

    open spec fn view(&self) -> ComponentView {
        match self {
            Component::OntologyID { iri, viri } => ComponentView::OntologyID {
                iri: match iri {
                    Some(s) => Some(s@),
                    None => None,
                },
                viri: match viri {
                    Some(s) => Some(s@),
                    None => None,
                },
            },
            Component::Import(iri) => ComponentView::Import(iri@),
            Component::OntologyAnnotation(a) => ComponentView::OntologyAnnotation(a@),
            Component::DeclareClass(iri) => ComponentView::DeclareClass(iri@),
            Component::DeclareObjectProperty(iri) => ComponentView::DeclareObjectProperty(iri@),
            Component::DeclareAnnotationProperty(iri) => ComponentView::DeclareAnnotationProperty(
                iri@,
            ),
            Component::AnnotationAssertion { subject, ann } => ComponentView::AnnotationAssertion {
                subject: subject@,
                ann: ann@,
            },
            Component::SubClassOf { sub, sup } => ComponentView::SubClassOf {
                sub: sub@,
                sup: sup@,
            },
            Component::EquivalentClasses(v) => ComponentView::EquivalentClasses(ces_view(v@)),
            Component::DisjointClasses(v) => ComponentView::DisjointClasses(ces_view(v@)),
            Component::SubAnnotationPropertyOf { sub, sup } => {
                ComponentView::SubAnnotationPropertyOf { sub: sub@, sup: sup@ }
            },
            Component::SubObjectPropertyOf { sub, sup } => ComponentView::SubObjectPropertyOf {
                sub: sub@,
                sup: sup@,
            },
            Component::EquivalentObjectProperties(v) => {
                ComponentView::EquivalentObjectProperties(strs_view(v@))
            },
            Component::DisjointObjectProperties(v) => ComponentView::DisjointObjectProperties(
                strs_view(v@),
            ),
            Component::InverseObjectProperties(a, b) => ComponentView::InverseObjectProperties(
                a@,
                b@,
            ),
            Component::ObjectPropertyDomain { ope, ce } => ComponentView::ObjectPropertyDomain {
                ope: ope@,
                ce: ce@,
            },
            Component::ObjectPropertyRange { ope, ce } => ComponentView::ObjectPropertyRange {
                ope: ope@,
                ce: ce@,
            },
            Component::ReflexiveObjectProperty(iri) => ComponentView::ReflexiveObjectProperty(iri@),
            Component::SymmetricObjectProperty(iri) => ComponentView::SymmetricObjectProperty(iri@),
            Component::AsymmetricObjectProperty(iri) => ComponentView::AsymmetricObjectProperty(
                iri@,
            ),
            Component::TransitiveObjectProperty(iri) => ComponentView::TransitiveObjectProperty(
                iri@,
            ),
            Component::FunctionalObjectProperty(iri) => ComponentView::FunctionalObjectProperty(
                iri@,
            ),
            Component::InverseFunctionalObjectProperty(iri) => {
                ComponentView::InverseFunctionalObjectProperty(iri@)
            },
        }
    }
}

impl View for AnnotatedComponent {
    type V = AnnotatedComponentView;

    open spec fn view(&self) -> AnnotatedComponentView {
        AnnotatedComponentView { component: self.component@, ann: anns_view(self.ann@) }
    }
}

/// The view of a sequence of annotated components.
pub open spec fn comps_view(s: Seq<AnnotatedComponent>) -> Seq<AnnotatedComponentView> {
    s.map_values(|c: AnnotatedComponent| c@)
}

impl AnnotatedComponent {
    /// A component with no annotations.
    pub fn plain(component: Component) -> (r: AnnotatedComponent)
        ensures
            r@ == (AnnotatedComponentView {
                component: component@,
                ann: Seq::<AnnotationView>::empty(),
            }),
    {
        let r = AnnotatedComponent { component, ann: Vec::new() };
        proof {
            assert(anns_view(r.ann@) =~= Seq::<AnnotationView>::empty());
        }
        r
    }
}

// ---------------------------------------------------------------------------
// Structural equality
// ---------------------------------------------------------------------------

/// Whether two strings hold the same text.
pub fn eq_str(a: &String, b: &String) -> (r: bool)
    ensures
        r == (a@ == b@),
{
    *a == *b
}

/// Whether two literals denote the same value.
pub fn eq_literal(a: &Literal, b: &Literal) -> (r: bool)
    ensures
        r == (a@ == b@),
{
    match (a, b) {
        (Literal::Simple { literal: la }, Literal::Simple { literal: lb }) => eq_str(la, lb),
        (
            Literal::Datatype { literal: la, datatype_iri: da },
            Literal::Datatype { literal: lb, datatype_iri: db },
        ) => eq_str(la, lb) && eq_str(da, db),
        _ => false,
    }
}

pub fn eq_annotation_value(a: &AnnotationValue, b: &AnnotationValue) -> (r: bool)
    ensures
        r == (a@ == b@),
{
    match (a, b) {
        (AnnotationValue::Iri(ia), AnnotationValue::Iri(ib)) => eq_str(ia, ib),
        (AnnotationValue::Literal(la), AnnotationValue::Literal(lb)) => eq_literal(la, lb),
        _ => false,
    }
}

pub fn eq_annotation(a: &Annotation, b: &Annotation) -> (r: bool)
    ensures
        r == (a@ == b@),
{
    eq_str(&a.ap, &b.ap) && eq_annotation_value(&a.av, &b.av)
}

pub fn eq_annotations(a: &Vec<Annotation>, b: &Vec<Annotation>) -> (r: bool)
    ensures
        r == (anns_view(a@) == anns_view(b@)),
{
    proof {
        assert(anns_view(a@).len() == a@.len());
        assert(anns_view(b@).len() == b@.len());
    }
    if a.len() != b.len() {
        return false;
    }
    let mut i: usize = 0;
    while i < a.len()
        invariant
            a@.len() == b@.len(),
            i <= a@.len(),
            forall|j: int| 0 <= j < i ==> #[trigger] anns_view(a@)[j] == anns_view(b@)[j],
        decreases a@.len() - i,
    {
        if !eq_annotation(&a[i], &b[i]) {
            assert(anns_view(a@)[i as int] != anns_view(b@)[i as int]);
            return false;
        }
        i = i + 1;
    }
    proof {
        assert(anns_view(a@) =~= anns_view(b@));
    }
    true
}

pub fn eq_strings(a: &Vec<String>, b: &Vec<String>) -> (r: bool)
    ensures
        r == (strs_view(a@) == strs_view(b@)),
{
    proof {
        assert(strs_view(a@).len() == a@.len());
        assert(strs_view(b@).len() == b@.len());
    }
    if a.len() != b.len() {
        return false;
    }
    let mut i: usize = 0;
    while i < a.len()
        invariant
            a@.len() == b@.len(),
            i <= a@.len(),
            forall|j: int| 0 <= j < i ==> #[trigger] strs_view(a@)[j] == strs_view(b@)[j],
        decreases a@.len() - i,
    {
        if !eq_str(&a[i], &b[i]) {
            assert(strs_view(a@)[i as int] != strs_view(b@)[i as int]);
            return false;
        }
        i = i + 1;
    }
    proof {
        assert(strs_view(a@) =~= strs_view(b@));
    }
    true
}

pub fn eq_class_expression(a: &ClassExpression, b: &ClassExpression) -> (r: bool)
    ensures
        r == (a@ == b@),
    decreases a,
{
    match (a, b) {
        (ClassExpression::Class(ia), ClassExpression::Class(ib)) => eq_str(ia, ib),
        (
            ClassExpression::ObjectSomeValuesFrom { ope: oa, bce: ba },
            ClassExpression::ObjectSomeValuesFrom { ope: ob, bce: bb },
        ) => eq_str(oa, ob) && eq_class_expression(ba, bb),
        (
            ClassExpression::ObjectAllValuesFrom { ope: oa, bce: ba },
            ClassExpression::ObjectAllValuesFrom { ope: ob, bce: bb },
        ) => eq_str(oa, ob) && eq_class_expression(ba, bb),
        (ClassExpression::ObjectComplementOf(ba), ClassExpression::ObjectComplementOf(bb)) => {
            eq_class_expression(ba, bb)
        },
        (ClassExpression::ObjectIntersectionOf(va), ClassExpression::ObjectIntersectionOf(vb)) => {
            proof {
                lemma_ces_view(va@);
                lemma_ces_view(vb@);
            }
            if va.len() != vb.len() {
                return false;
            }
            let mut i: usize = 0;
            while i < va.len()
                invariant
                    a == ClassExpression::ObjectIntersectionOf(*va),
                    b == ClassExpression::ObjectIntersectionOf(*vb),
                    va@.len() == vb@.len(),
                    i <= va@.len(),
                    forall|j: int| 0 <= j < i ==> #[trigger] ces_view(va@)[j] == ces_view(vb@)[j],
                decreases va@.len() - i,
            {
                proof {
                    lemma_ces_view(va@);
                    lemma_ces_view(vb@);
                    assert(decreases_to!(*a => a->ObjectIntersectionOf_0));
                    assert(decreases_to!(*va => va@));
                    assert(decreases_to!(va@ => va@[i as int]));
                }
                if !eq_class_expression(&va[i], &vb[i]) {
                    assert(ces_view(va@)[i as int] != ces_view(vb@)[i as int]);
                    return false;
                }
                i = i + 1;
            }
            proof {
                assert(ces_view(va@) =~= ces_view(vb@));
            }
            true
        },
        (ClassExpression::ObjectUnionOf(va), ClassExpression::ObjectUnionOf(vb)) => {
            proof {
                lemma_ces_view(va@);
                lemma_ces_view(vb@);
            }
            if va.len() != vb.len() {
                return false;
            }
            let mut i: usize = 0;
            while i < va.len()
                invariant
                    a == ClassExpression::ObjectUnionOf(*va),
                    b == ClassExpression::ObjectUnionOf(*vb),
                    va@.len() == vb@.len(),
                    i <= va@.len(),
                    forall|j: int| 0 <= j < i ==> #[trigger] ces_view(va@)[j] == ces_view(vb@)[j],
                decreases va@.len() - i,
            {
                proof {
                    lemma_ces_view(va@);
                    lemma_ces_view(vb@);
                    assert(decreases_to!(*a => a->ObjectUnionOf_0));
                    assert(decreases_to!(*va => va@));
                    assert(decreases_to!(va@ => va@[i as int]));
                }
                if !eq_class_expression(&va[i], &vb[i]) {
                    assert(ces_view(va@)[i as int] != ces_view(vb@)[i as int]);
                    return false;
                }
                i = i + 1;
            }
            proof {
                assert(ces_view(va@) =~= ces_view(vb@));
            }
            true
        },
        (
            ClassExpression::ObjectExactCardinality { n: na, ope: oa, bce: ba },
            ClassExpression::ObjectExactCardinality { n: nb, ope: ob, bce: bb },
        ) => *na == *nb && eq_str(oa, ob) && eq_class_expression(ba, bb),
        (
            ClassExpression::ObjectMinCardinality { n: na, ope: oa, bce: ba },
            ClassExpression::ObjectMinCardinality { n: nb, ope: ob, bce: bb },
        ) => *na == *nb && eq_str(oa, ob) && eq_class_expression(ba, bb),
        (
            ClassExpression::ObjectMaxCardinality { n: na, ope: oa, bce: ba },
            ClassExpression::ObjectMaxCardinality { n: nb, ope: ob, bce: bb },
        ) => *na == *nb && eq_str(oa, ob) && eq_class_expression(ba, bb),
        (
            ClassExpression::ObjectHasValue { ope: oa, i: ia },
            ClassExpression::ObjectHasValue { ope: ob, i: ib },
        ) => eq_str(oa, ob) && eq_str(ia, ib),
        _ => false,
    }
}

pub fn eq_sub_object_property(a: &SubObjectProperty, b: &SubObjectProperty) -> (r: bool)
    ensures
        r == (a@ == b@),
{
    match (a, b) {
        (SubObjectProperty::Property(ia), SubObjectProperty::Property(ib)) => eq_str(ia, ib),
        (SubObjectProperty::Chain(va), SubObjectProperty::Chain(vb)) => eq_strings(va, vb),
        _ => false,
    }
}

fn eq_opt_string(a: &Option<String>, b: &Option<String>) -> (r: bool)
    ensures
        r == ((match a {
            Some(s) => Some(s@),
            None => None::<Seq<char>>,
        }) == (match b {
            Some(s) => Some(s@),
            None => None::<Seq<char>>,
        })),
{
    match (a, b) {
        (Some(sa), Some(sb)) => eq_str(sa, sb),
        (None, None) => true,
        _ => false,
    }
}

/// Whether two components are structurally equal.
pub fn eq_component(a: &Component, b: &Component) -> (r: bool)
    ensures
        r == (a@ == b@),
{
    match (a, b) {
        (
            Component::OntologyID { iri: ia, viri: va },
            Component::OntologyID { iri: ib, viri: vb },
        ) => eq_opt_string(ia, ib) && eq_opt_string(va, vb),
        (Component::Import(ia), Component::Import(ib)) => eq_str(ia, ib),
        (Component::OntologyAnnotation(aa), Component::OntologyAnnotation(ab)) => {
            eq_annotation(aa, ab)
        },
        (Component::DeclareClass(ia), Component::DeclareClass(ib)) => eq_str(ia, ib),
        (Component::DeclareObjectProperty(ia), Component::DeclareObjectProperty(ib)) => eq_str(ia, ib),
        (Component::DeclareAnnotationProperty(ia), Component::DeclareAnnotationProperty(ib)) => {
            eq_str(ia, ib)
        },
        (
            Component::AnnotationAssertion { subject: sa, ann: aa },
            Component::AnnotationAssertion { subject: sb, ann: ab },
        ) => eq_str(sa, sb) && eq_annotation(aa, ab),
        (
            Component::SubClassOf { sub: suba, sup: supa },
            Component::SubClassOf { sub: subb, sup: supb },
        ) => eq_class_expression(suba, subb) && eq_class_expression(supa, supb),
        (Component::EquivalentClasses(va), Component::EquivalentClasses(vb)) => {
            eq_free_class_expressions(va, vb)
        },
        (Component::DisjointClasses(va), Component::DisjointClasses(vb)) => {
            eq_free_class_expressions(va, vb)
        },
        (
            Component::SubAnnotationPropertyOf { sub: suba, sup: supa },
            Component::SubAnnotationPropertyOf { sub: subb, sup: supb },
        ) => eq_str(suba, subb) && eq_str(supa, supb),
        (
            Component::SubObjectPropertyOf { sub: suba, sup: supa },
            Component::SubObjectPropertyOf { sub: subb, sup: supb },
        ) => eq_sub_object_property(suba, subb) && eq_str(supa, supb),
        (
            Component::EquivalentObjectProperties(va),
            Component::EquivalentObjectProperties(vb),
        ) => eq_strings(va, vb),
        (Component::DisjointObjectProperties(va), Component::DisjointObjectProperties(vb)) => {
            eq_strings(va, vb)
        },
        (
            Component::InverseObjectProperties(xa, ya),
            Component::InverseObjectProperties(xb, yb),
        ) => eq_str(xa, xb) && eq_str(ya, yb),
        (
            Component::ObjectPropertyDomain { ope: oa, ce: ca },
            Component::ObjectPropertyDomain { ope: ob, ce: cb },
        ) => eq_str(oa, ob) && eq_class_expression(ca, cb),
        (
            Component::ObjectPropertyRange { ope: oa, ce: ca },
            Component::ObjectPropertyRange { ope: ob, ce: cb },
        ) => eq_str(oa, ob) && eq_class_expression(ca, cb),
        (Component::ReflexiveObjectProperty(ia), Component::ReflexiveObjectProperty(ib)) => {
            eq_str(ia, ib)
        },
        (Component::SymmetricObjectProperty(ia), Component::SymmetricObjectProperty(ib)) => {
            eq_str(ia, ib)
        },
        (Component::AsymmetricObjectProperty(ia), Component::AsymmetricObjectProperty(ib)) => {
            eq_str(ia, ib)
        },
        (Component::TransitiveObjectProperty(ia), Component::TransitiveObjectProperty(ib)) => {
            eq_str(ia, ib)
        },
        (Component::FunctionalObjectProperty(ia), Component::FunctionalObjectProperty(ib)) => {
            eq_str(ia, ib)
        },
        (
            Component::InverseFunctionalObjectProperty(ia),
            Component::InverseFunctionalObjectProperty(ib),
        ) => eq_str(ia, ib),
        _ => false,
    }
}

/// Compare two free-standing vectors of class expressions.
fn eq_free_class_expressions(va: &Vec<ClassExpression>, vb: &Vec<ClassExpression>) -> (r: bool)
    ensures
        r == (ces_view(va@) == ces_view(vb@)),
{
    proof {
        lemma_ces_view(va@);
        lemma_ces_view(vb@);
    }
    if va.len() != vb.len() {
        return false;
    }
    let mut i: usize = 0;
    while i < va.len()
        invariant
            va@.len() == vb@.len(),
            i <= va@.len(),
            forall|j: int| 0 <= j < i ==> #[trigger] ces_view(va@)[j] == ces_view(vb@)[j],
        decreases va@.len() - i,
    {
        proof {
            lemma_ces_view(va@);
            lemma_ces_view(vb@);
        }
        if !eq_class_expression(&va[i], &vb[i]) {
            assert(ces_view(va@)[i as int] != ces_view(vb@)[i as int]);
            return false;
        }
        i = i + 1;
    }
    proof {
        assert(ces_view(va@) =~= ces_view(vb@));
    }
    true
}

pub fn eq_annotated_component(a: &AnnotatedComponent, b: &AnnotatedComponent) -> (r: bool)
    ensures
        r == (a@ == b@),
{
    eq_component(&a.component, &b.component) && eq_annotations(&a.ann, &b.ann)
}

// ---------------------------------------------------------------------------
// Set-like insertion
// ---------------------------------------------------------------------------

/// Insertion into a duplicate-free sequence: a value already present is
/// dropped, a new one goes to the end.
pub open spec fn insert_component(
    s: Seq<AnnotatedComponentView>,
    x: AnnotatedComponentView,
) -> Seq<AnnotatedComponentView> {
    if s.contains(x) {
        s
    } else {
        s.push(x)
    }
}

/// Insert every element of `items`, in order.
pub open spec fn insert_components(
    s: Seq<AnnotatedComponentView>,
    items: Seq<AnnotatedComponentView>,
) -> Seq<AnnotatedComponentView>
    decreases items.len(),
{
    if items.len() == 0 {
        s
    } else {
        insert_component(insert_components(s, items.drop_last()), items.last())
    }
}

pub open spec fn insert_annotation(
    s: Seq<AnnotationView>,
    x: AnnotationView,
) -> Seq<AnnotationView> {
    if s.contains(x) {
        s
    } else {
        s.push(x)
    }
}

pub open spec fn insert_annotations(
    s: Seq<AnnotationView>,
    items: Seq<AnnotationView>,
) -> Seq<AnnotationView>
    decreases items.len(),
{
    if items.len() == 0 {
        s
    } else {
        insert_annotation(insert_annotations(s, items.drop_last()), items.last())
    }
}

/// Append `x` unless an equal component is already present.
pub fn push_unique_component(v: &mut Vec<AnnotatedComponent>, x: AnnotatedComponent)
    ensures
        comps_view(final(v)@) == insert_component(comps_view(old(v)@), x@),
{
    let mut i: usize = 0;
    while i < v.len()
        invariant
            i <= v@.len(),
            v == old(v),
            forall|j: int| 0 <= j < i ==> #[trigger] comps_view(v@)[j] != x@,
        decreases v@.len() - i,
    {
        if eq_annotated_component(&v[i], &x) {
            proof {
                assert(comps_view(v@)[i as int] == x@);
                assert(comps_view(v@).contains(x@));
            }
            return;
        }
        i = i + 1;
    }
    proof {
        assert(forall|j: int| 0 <= j < comps_view(v@).len() ==> #[trigger] comps_view(v@)[j]
            != x@);
        assert(!comps_view(v@).contains(x@));
    }
    let ghost before = v@;
    v.push(x);
    proof {
        assert(comps_view(v@) =~= comps_view(before).push(x@));
    }
}

/// Append each element of `items` unless an equal component is already
/// present.
pub fn extend_unique_components(v: &mut Vec<AnnotatedComponent>, items: Vec<AnnotatedComponent>)
    ensures
        comps_view(final(v)@) == insert_components(comps_view(old(v)@), comps_view(items@)),
{
    let ghost all = items@;
    let mut items = items;
    let mut k: usize = 0;
    let n = items.len();
    while k < n
        invariant
            n == all.len(),
            k <= n,
            items@ == all.subrange(k as int, n as int),
            comps_view(v@) == insert_components(comps_view(old(v)@), comps_view(
                all.subrange(0, k as int),
            )),
        decreases n - k,
    {
        let ghost prefix = comps_view(all.subrange(0, k as int));
        let x = items.remove(0);
        proof {
            assert(all.subrange(k as int, n as int)[0] == all[k as int]);
            assert(items@ =~= all.subrange(k + 1int, n as int));
        }
        assert(x@ == comps_view(all)[k as int]);
        push_unique_component(v, x);
        proof {
            let prefix1 = comps_view(all.subrange(0, k + 1int));
            assert(prefix1.drop_last() =~= prefix);
            assert(prefix1.last() == comps_view(all)[k as int]);
        }
        k = k + 1;
    }
    proof {
        assert(all.subrange(0, n as int) =~= all);
    }
}

/// Append `x` unless an equal annotation is already present.
pub fn push_unique_annotation(v: &mut Vec<Annotation>, x: Annotation)
    ensures
        anns_view(final(v)@) == insert_annotation(anns_view(old(v)@), x@),
{
    let mut i: usize = 0;
    while i < v.len()
        invariant
            i <= v@.len(),
            v == old(v),
            forall|j: int| 0 <= j < i ==> #[trigger] anns_view(v@)[j] != x@,
        decreases v@.len() - i,
    {
        if eq_annotation(&v[i], &x) {
            proof {
                assert(anns_view(v@)[i as int] == x@);
                assert(anns_view(v@).contains(x@));
            }
            return;
        }
        i = i + 1;
    }
    proof {
        assert(forall|j: int| 0 <= j < anns_view(v@).len() ==> #[trigger] anns_view(v@)[j] != x@);
        assert(!anns_view(v@).contains(x@));
    }
    let ghost before = v@;
    v.push(x);
    proof {
        assert(anns_view(v@) =~= anns_view(before).push(x@));
    }
}

/// Append each element of `items` unless an equal annotation is already
/// present.
pub fn extend_unique_annotations(v: &mut Vec<Annotation>, items: Vec<Annotation>)
    ensures
        anns_view(final(v)@) == insert_annotations(anns_view(old(v)@), anns_view(items@)),
{
    let ghost all = items@;
    let mut items = items;
    let mut k: usize = 0;
    let n = items.len();
    while k < n
        invariant
            n == all.len(),
            k <= n,
            items@ == all.subrange(k as int, n as int),
            anns_view(v@) == insert_annotations(anns_view(old(v)@), anns_view(
                all.subrange(0, k as int),
            )),
        decreases n - k,
    {
        let ghost prefix = anns_view(all.subrange(0, k as int));
        let x = items.remove(0);
        proof {
            assert(all.subrange(k as int, n as int)[0] == all[k as int]);
            assert(items@ =~= all.subrange(k + 1int, n as int));
        }
        assert(x@ == anns_view(all)[k as int]);
        push_unique_annotation(v, x);
        proof {
            let prefix1 = anns_view(all.subrange(0, k + 1int));
            assert(prefix1.drop_last() =~= prefix);
            assert(prefix1.last() == anns_view(all)[k as int]);
        }
        k = k + 1;
    }
    proof {
        assert(all.subrange(0, n as int) =~= all);
    }
}

} // verus!
