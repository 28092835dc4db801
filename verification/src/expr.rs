//! The cardinality/qualifier expression builder: given the qualifiers of a
//! relationship clause, a relation and a filler class, decide which OWL
//! class expression the clause stands for. The rules apply in a fixed
//! order; the first that matches wins. A cardinality-family qualifier whose
//! value is not a valid integer is a reported error, never a panic.

use vstd::prelude::*;

use crate::ast::Ident;
use crate::ast::IdentView;
use crate::ast::Qualifier;
use crate::context::Context;
use crate::context::resolve_ident;
use crate::error::Error;
use crate::error::ErrorView;
use crate::owl::ClassExpression;
use crate::owl::ClassExpressionView;
use crate::owl::ce_view;
use crate::strings::parse_i32;
use crate::strings::parse_i32_spec;
use crate::strings::parse_u32;
use crate::strings::parse_u32_spec;
use crate::strings::str_eq;

verus! {

/// Whether a qualifier's key is the unprefixed identifier `name`. A
/// prefixed key of the same local part does not match.
pub open spec fn key_is(q: Qualifier, name: Seq<char>) -> bool {
    match q.key@ {
        IdentView::Unprefixed { local } => local == name,
        _ => false,
    }
}

/// The first qualifier of the list keyed by the unprefixed `name`.
pub open spec fn find_qualifier(qs: Seq<Qualifier>, name: Seq<char>) -> Option<Qualifier>
    decreases qs.len(),
{
    if qs.len() == 0 {
        None
    } else if key_is(qs[0], name) {
        Some(qs[0])
    } else {
        find_qualifier(qs.drop_first(), name)
    }
}

/// A named class as a class expression.
pub open spec fn ce_class(c: Seq<char>) -> ClassExpressionView {
    ClassExpressionView::Class(c)
}

/// `AllValuesFrom(r, ComplementOf(c))`: how a cardinality of zero is
/// written.
pub open spec fn ce_all_complement(r: Seq<char>, c: Seq<char>) -> ClassExpressionView {
    ClassExpressionView::ObjectAllValuesFrom {
        ope: r,
        bce: Box::new(ClassExpressionView::ObjectComplementOf(Box::new(ce_class(c)))),
    }
}

pub open spec fn invalid_value(key: Seq<char>, value: Seq<char>) -> ErrorView {
    ErrorView::InvalidQualifierValue { key, value }
}

/// Rules five to seven: a lone `maxCardinality` (nonzero, checked by rule
/// two) restricts the complement of the filler; `all_only` asks for a
/// universal restriction, joined with an existential one when `all_some`
/// stands beside it; otherwise a class-level relation holds the filler as
/// a named individual, and any other relation is existential.
pub open spec fn rel_ce_from_max_alone(
    qs: Seq<Qualifier>,
    r: Seq<char>,
    c: Seq<char>,
    class_level: bool,
) -> Result<ClassExpressionView, ErrorView> {
    match find_qualifier(qs, "maxCardinality"@) {
        Some(q) => match parse_u32_spec(q.value@) {
            None => Err(invalid_value("maxCardinality"@, q.value@)),
            Some(n) => Ok(
                ClassExpressionView::ObjectMaxCardinality {
                    n,
                    ope: r,
                    bce: Box::new(
                        ClassExpressionView::ObjectComplementOf(Box::new(ce_class(c))),
                    ),
                },
            ),
        },
        None => if find_qualifier(qs, "all_only"@) is Some {
            if find_qualifier(qs, "all_some"@) is Some {
                Ok(
                    ClassExpressionView::ObjectIntersectionOf(
                        seq![
                            ClassExpressionView::ObjectSomeValuesFrom {
                                ope: r,
                                bce: Box::new(ce_class(c)),
                            },
                            ClassExpressionView::ObjectAllValuesFrom {
                                ope: r,
                                bce: Box::new(ce_class(c)),
                            },
                        ],
                    ),
                )
            } else {
                Ok(ClassExpressionView::ObjectAllValuesFrom { ope: r, bce: Box::new(ce_class(c)) })
            }
        } else if class_level {
            Ok(ClassExpressionView::ObjectHasValue { ope: r, i: c })
        } else {
            Ok(ClassExpressionView::ObjectSomeValuesFrom { ope: r, bce: Box::new(ce_class(c)) })
        },
    }
}

/// Rules three and four: `minCardinality` with `maxCardinality` becomes an
/// intersection of the two bounds; `minCardinality` alone stands by
/// itself.
pub open spec fn rel_ce_from_min(
    qs: Seq<Qualifier>,
    r: Seq<char>,
    c: Seq<char>,
    class_level: bool,
) -> Result<ClassExpressionView, ErrorView> {
    match find_qualifier(qs, "minCardinality"@) {
        Some(qa) => match parse_u32_spec(qa.value@) {
            None => Err(invalid_value("minCardinality"@, qa.value@)),
            Some(na) => match find_qualifier(qs, "maxCardinality"@) {
                Some(qb) => match parse_u32_spec(qb.value@) {
                    None => Err(invalid_value("maxCardinality"@, qb.value@)),
                    Some(nb) => Ok(
                        ClassExpressionView::ObjectIntersectionOf(
                            seq![
                                ClassExpressionView::ObjectMinCardinality {
                                    n: na,
                                    ope: r,
                                    bce: Box::new(ce_class(c)),
                                },
                                ClassExpressionView::ObjectMaxCardinality {
                                    n: nb,
                                    ope: r,
                                    bce: Box::new(ce_class(c)),
                                },
                            ],
                        ),
                    ),
                },
                None => Ok(
                    ClassExpressionView::ObjectMinCardinality {
                        n: na,
                        ope: r,
                        bce: Box::new(ce_class(c)),
                    },
                ),
            },
        },
        None => rel_ce_from_max_alone(qs, r, c, class_level),
    }
}

/// Rule two: a `maxCardinality` of zero is a universal restriction over
/// the complement, whatever else stands in the list.
pub open spec fn rel_ce_from_max_zero(
    qs: Seq<Qualifier>,
    r: Seq<char>,
    c: Seq<char>,
    class_level: bool,
) -> Result<ClassExpressionView, ErrorView> {
    match find_qualifier(qs, "maxCardinality"@) {
        Some(q) => match parse_i32_spec(q.value@) {
            None => Err(invalid_value("maxCardinality"@, q.value@)),
            Some(na) => if na == 0 {
                Ok(ce_all_complement(r, c))
            } else {
                rel_ce_from_min(qs, r, c, class_level)
            },
        },
        None => rel_ce_from_min(qs, r, c, class_level),
    }
}

/// What the expression builder returns for a qualifier list, a resolved
/// relation IRI, a resolved filler IRI, and the relation's class-level
/// standing. Rule one: an exact `cardinality` takes precedence; zero
/// becomes the universal restriction over the complement.
pub open spec fn rel_ce_spec(
    qs: Seq<Qualifier>,
    r: Seq<char>,
    c: Seq<char>,
    class_level: bool,
) -> Result<ClassExpressionView, ErrorView> {
    match find_qualifier(qs, "cardinality"@) {
        Some(q) => match parse_u32_spec(q.value@) {
            None => Err(invalid_value("cardinality"@, q.value@)),
            Some(n) => if n == 0 {
                Ok(ce_all_complement(r, c))
            } else {
                Ok(
                    ClassExpressionView::ObjectExactCardinality {
                        n,
                        ope: r,
                        bce: Box::new(ce_class(c)),
                    },
                )
            },
        },
        None => rel_ce_from_max_zero(qs, r, c, class_level),
    }
}

/// Find the first qualifier keyed by the unprefixed `name`.
pub fn find_q<'a>(qs: &'a Vec<Qualifier>, name: &str) -> (r: Option<&'a Qualifier>)
    ensures
        match r {
            Some(q) => find_qualifier(qs@, name@) == Some(*q),
            None => find_qualifier(qs@, name@) is None,
        },
{
    let ghost all = qs@;
    proof {
        assert(all.subrange(0, all.len() as int) =~= all);
    }
    let mut i: usize = 0;
    while i < qs.len()
        invariant
            i <= all.len(),
            all == qs@,
            find_qualifier(all.subrange(i as int, all.len() as int), name@) == find_qualifier(
                all,
                name@,
            ),
        decreases all.len() - i,
    {
        let ghost rest = all.subrange(i as int, all.len() as int);
        proof {
            assert(rest[0] == all[i as int]);
            assert(rest.drop_first() =~= all.subrange(i + 1int, all.len() as int));
        }
        let matches_name = match &qs[i].key {
            Ident::Unprefixed { local } => str_eq(local.as_str(), name),
            _ => false,
        };
        if matches_name {
            return Some(&qs[i]);
        }
        i = i + 1;
    }
    proof {
        assert(all.subrange(i as int, all.len() as int).len() == 0);
    }
    None
}

// Small constructors, each proved against its view, so that the nested
// shapes of the builder go together from proved parts.

fn build_some(rp: String, c: String) -> (out: ClassExpression)
    ensures
        out@ == (ClassExpressionView::ObjectSomeValuesFrom { ope: rp@, bce: Box::new(ce_class(c@)) }),
{
    let cls = ClassExpression::Class(c);
    let ghost gc = cls;
    proof {
        assert(ce_view(gc) == ce_class(gc->Class_0@));
    }
    let out = ClassExpression::ObjectSomeValuesFrom { ope: rp, bce: Box::new(cls) };
    proof {
        assert(out@ == (ClassExpressionView::ObjectSomeValuesFrom {
            ope: out->ObjectSomeValuesFrom_ope@,
            bce: Box::new(ce_view(gc)),
        }));
    }
    out
}

fn build_all(rp: String, c: String) -> (out: ClassExpression)
    ensures
        out@ == (ClassExpressionView::ObjectAllValuesFrom { ope: rp@, bce: Box::new(ce_class(c@)) }),
{
    let cls = ClassExpression::Class(c);
    let ghost gc = cls;
    proof {
        assert(ce_view(gc) == ce_class(gc->Class_0@));
    }
    let out = ClassExpression::ObjectAllValuesFrom { ope: rp, bce: Box::new(cls) };
    proof {
        assert(out@ == (ClassExpressionView::ObjectAllValuesFrom {
            ope: out->ObjectAllValuesFrom_ope@,
            bce: Box::new(ce_view(gc)),
        }));
    }
    out
}

fn build_all_complement(rp: String, c: String) -> (out: ClassExpression)
    ensures
        out@ == ce_all_complement(rp@, c@),
{
    let cls = ClassExpression::Class(c);
    let ghost gc = cls;
    proof {
        assert(ce_view(gc) == ce_class(gc->Class_0@));
    }
    let comp = ClassExpression::ObjectComplementOf(Box::new(cls));
    let ghost gcomp = comp;
    proof {
        assert(ce_view(gcomp) == ClassExpressionView::ObjectComplementOf(Box::new(ce_view(gc))));
    }
    let out = ClassExpression::ObjectAllValuesFrom { ope: rp, bce: Box::new(comp) };
    proof {
        assert(out@ == (ClassExpressionView::ObjectAllValuesFrom {
            ope: out->ObjectAllValuesFrom_ope@,
            bce: Box::new(ce_view(gcomp)),
        }));
    }
    out
}

fn build_exact(n: u32, rp: String, c: String) -> (out: ClassExpression)
    ensures
        out@ == (ClassExpressionView::ObjectExactCardinality {
            n,
            ope: rp@,
            bce: Box::new(ce_class(c@)),
        }),
{
    let cls = ClassExpression::Class(c);
    let ghost gc = cls;
    proof {
        assert(ce_view(gc) == ce_class(gc->Class_0@));
    }
    let out = ClassExpression::ObjectExactCardinality { n, ope: rp, bce: Box::new(cls) };
    proof {
        assert(out@ == (ClassExpressionView::ObjectExactCardinality {
            n,
            ope: out->ObjectExactCardinality_ope@,
            bce: Box::new(ce_view(gc)),
        }));
    }
    out
}

fn build_min(n: u32, rp: String, c: String) -> (out: ClassExpression)
    ensures
        out@ == (ClassExpressionView::ObjectMinCardinality {
            n,
            ope: rp@,
            bce: Box::new(ce_class(c@)),
        }),
{
    let cls = ClassExpression::Class(c);
    let ghost gc = cls;
    proof {
        assert(ce_view(gc) == ce_class(gc->Class_0@));
    }
    let out = ClassExpression::ObjectMinCardinality { n, ope: rp, bce: Box::new(cls) };
    proof {
        assert(out@ == (ClassExpressionView::ObjectMinCardinality {
            n,
            ope: out->ObjectMinCardinality_ope@,
            bce: Box::new(ce_view(gc)),
        }));
    }
    out
}

fn build_max(n: u32, rp: String, c: String) -> (out: ClassExpression)
    ensures
        out@ == (ClassExpressionView::ObjectMaxCardinality {
            n,
            ope: rp@,
            bce: Box::new(ce_class(c@)),
        }),
{
    let cls = ClassExpression::Class(c);
    let ghost gc = cls;
    proof {
        assert(ce_view(gc) == ce_class(gc->Class_0@));
    }
    let out = ClassExpression::ObjectMaxCardinality { n, ope: rp, bce: Box::new(cls) };
    proof {
        assert(out@ == (ClassExpressionView::ObjectMaxCardinality {
            n,
            ope: out->ObjectMaxCardinality_ope@,
            bce: Box::new(ce_view(gc)),
        }));
    }
    out
}

fn build_max_complement(n: u32, rp: String, c: String) -> (out: ClassExpression)
    ensures
        out@ == (ClassExpressionView::ObjectMaxCardinality {
            n,
            ope: rp@,
            bce: Box::new(ClassExpressionView::ObjectComplementOf(Box::new(ce_class(c@)))),
        }),
{
    let cls = ClassExpression::Class(c);
    let ghost gc = cls;
    proof {
        assert(ce_view(gc) == ce_class(gc->Class_0@));
    }
    let comp = ClassExpression::ObjectComplementOf(Box::new(cls));
    let ghost gcomp = comp;
    proof {
        assert(ce_view(gcomp) == ClassExpressionView::ObjectComplementOf(Box::new(ce_view(gc))));
    }
    let out = ClassExpression::ObjectMaxCardinality { n, ope: rp, bce: Box::new(comp) };
    proof {
        assert(out@ == (ClassExpressionView::ObjectMaxCardinality {
            n,
            ope: out->ObjectMaxCardinality_ope@,
            bce: Box::new(ce_view(gcomp)),
        }));
    }
    out
}

/// An intersection of exactly two parts.
fn build_pair_intersection(a: ClassExpression, b: ClassExpression) -> (out: ClassExpression)
    ensures
        out@ == ClassExpressionView::ObjectIntersectionOf(seq![a@, b@]),
{
    let ghost ga = a;
    let ghost gb = b;
    let mut parts: Vec<ClassExpression> = Vec::new();
    parts.push(a);
    parts.push(b);
    let ghost p = parts@;
    proof {
        assert(p.len() == 2);
        assert(p[0] == ga);
        assert(p[1] == gb);
        crate::owl::lemma_ces_view(p);
        assert(crate::owl::ces_view(p) =~= seq![ce_view(ga), ce_view(gb)]);
    }
    let out = ClassExpression::ObjectIntersectionOf(parts);
    proof {
        assert(out@ == ClassExpressionView::ObjectIntersectionOf(crate::owl::ces_view(p)));
    }
    out
}

impl Context {
    /// Build the class expression a relationship clause stands for, from
    /// its qualifiers, its relation and its filler class. Fails exactly
    /// when the first cardinality-family qualifier a rule reads holds a
    /// value that is not a valid integer.
    pub fn rel_class_expression(
        &self,
        qualifiers: &Vec<Qualifier>,
        relation: &Ident,
        cls: &Ident,
    ) -> (r: Result<ClassExpression, Error>)
        ensures
            ({
                let spec = rel_ce_spec(
                    qualifiers@,
                    resolve_ident(self@, relation@),
                    resolve_ident(self@, cls@),
                    self@.class_level.contains(resolve_ident(self@, relation@)),
                );
                match r {
                    Ok(ce) => spec == Ok::<ClassExpressionView, ErrorView>(ce@),
                    Err(e) => spec == Err::<ClassExpressionView, ErrorView>(e@),
                }
            }),
    {
        let r_iri = self.resolve(relation);
        let c_iri = self.resolve(cls);

        if let Some(q) = find_q(qualifiers, "cardinality") {
            match parse_u32(q.value.as_str()) {
                None => {
                    return Err(
                        Error::InvalidQualifierValue {
                            key: String::from_str("cardinality"),
                            value: q.value.clone(),
                        },
                    );
                },
                Some(n) => {
                    if n == 0 {
                        return Ok(build_all_complement(r_iri, c_iri));
                    } else {
                        return Ok(build_exact(n, r_iri, c_iri));
                    }
                },
            }
        }

        if let Some(q) = find_q(qualifiers, "maxCardinality") {
            match parse_i32(q.value.as_str()) {
                None => {
                    return Err(
                        Error::InvalidQualifierValue {
                            key: String::from_str("maxCardinality"),
                            value: q.value.clone(),
                        },
                    );
                },
                Some(na) => {
                    if na == 0 {
                        return Ok(build_all_complement(r_iri, c_iri));
                    }
                },
            }
        }

        if let Some(qa) = find_q(qualifiers, "minCardinality") {
            let na = match parse_u32(qa.value.as_str()) {
                None => {
                    return Err(
                        Error::InvalidQualifierValue {
                            key: String::from_str("minCardinality"),
                            value: qa.value.clone(),
                        },
                    );
                },
                Some(na) => na,
            };
            if let Some(qb) = find_q(qualifiers, "maxCardinality") {
                match parse_u32(qb.value.as_str()) {
                    None => {
                        return Err(
                            Error::InvalidQualifierValue {
                                key: String::from_str("maxCardinality"),
                                value: qb.value.clone(),
                            },
                        );
                    },
                    Some(nb) => {
                        let lo = build_min(na, r_iri.clone(), c_iri.clone());
                        let hi = build_max(nb, r_iri, c_iri);
                        return Ok(build_pair_intersection(lo, hi));
                    },
                }
            } else {
                return Ok(build_min(na, r_iri, c_iri));
            }
        }

        if let Some(q) = find_q(qualifiers, "maxCardinality") {
            match parse_u32(q.value.as_str()) {
                None => {
                    return Err(
                        Error::InvalidQualifierValue {
                            key: String::from_str("maxCardinality"),
                            value: q.value.clone(),
                        },
                    );
                },
                Some(n) => {
                    return Ok(build_max_complement(n, r_iri, c_iri));
                },
            }
        }

        if find_q(qualifiers, "all_only").is_some() {
            if find_q(qualifiers, "all_some").is_some() {
                let lo = build_some(r_iri.clone(), c_iri.clone());
                let hi = build_all(r_iri, c_iri);
                return Ok(build_pair_intersection(lo, hi));
            } else {
                return Ok(build_all(r_iri, c_iri));
            }
        }

        if self.is_class_level(&r_iri) {
            Ok(ClassExpression::ObjectHasValue { ope: r_iri, i: c_iri })
        } else {
            Ok(build_some(r_iri, c_iri))
        }
    }
}

} // verus!
