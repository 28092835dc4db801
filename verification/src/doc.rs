//! The document translator: build the context, emit the ontology
//! identifier, translate the header, force the oboInOwl import, and
//! translate every entity frame in document order into one deduplicated
//! component collection. The input document is taken as already parsed and
//! preprocessed: xref macros expanded and default namespaces assigned.

use vstd::prelude::*;

use crate::ast::EntityFrame;
use crate::ast::HeaderClause;
use crate::ast::OboDoc;
use crate::constants::import_obo_in_owl;
use crate::constants::import_obo_in_owl_str;
use crate::constants::uri_obo;
use crate::constants::uri_obo_str;
use crate::context::Context;
use crate::context::CtxView;
use crate::context::doc_context;
use crate::context::ontology_count;
use crate::context::ontology_name;
use crate::context::resolve_ident;
use crate::context::typedef_is_metadata_tag;
use crate::error::Error;
use crate::error::ErrorView;
use crate::header::gather_owl_axioms;
use crate::header::header_components;
use crate::header::join_newline;
use crate::header::owl_axioms_texts;
use crate::header::translate_header_frame;
use crate::owl::AnnotatedComponent;
use crate::owl::AnnotatedComponentView;
use crate::owl::Component;
use crate::owl::ComponentView;
use crate::owl::comps_view;
use crate::owl::extend_unique_components;
use crate::owl::insert_component;
use crate::owl::insert_components;
use crate::owl::push_unique_component;
use crate::strings::concat2;
use crate::strings::escape_unquoted;
use crate::strings::unquoted_escape;
use crate::term::term_frame_components;
use crate::term::translate_term_frame;
use crate::typedef::translate_typedef_frame;
use crate::typedef::typedef_frame_components;
use crate::values::plain;

verus! {

broadcast use vstd::std_specs::vec::group_vec_axioms;

/// The translated form of a document: the OWL components, and the
/// newline-joined text of its `owl-axioms` header clauses, left for an OWL
/// functional-syntax reader to parse and splice in.
#[derive(Debug, PartialEq, Eq)]
pub struct Ontology {
    pub components: Vec<AnnotatedComponent>,
    pub owl_axioms: String,
}

// ---------------------------------------------------------------------------
// The ontology identifier
// ---------------------------------------------------------------------------

/// How many `data-version` clauses a header holds.
pub open spec fn data_version_count(h: Seq<HeaderClause>) -> nat
    decreases h.len(),
{
    if h.len() == 0 {
        0
    } else {
        data_version_count(h.drop_last()) + (if h.last() is DataVersion {
            1nat
        } else {
            0nat
        })
    }
}

/// The raw value of the first `data-version` clause.
pub open spec fn first_data_version_raw(h: Seq<HeaderClause>) -> Seq<char>
    decreases h.len(),
{
    if h.len() == 0 {
        Seq::empty()
    } else {
        match h[0] {
            HeaderClause::DataVersion(v) => v@,
            _ => first_data_version_raw(h.drop_first()),
        }
    }
}

/// The ontology identifier component: the persistent IRI
/// `{OBO}{name}.owl`, and, when the header holds exactly one
/// `data-version` clause, the version IRI
/// `{OBO}{name}/{version}/{name}.owl`.
pub open spec fn ontology_id_component(h: Seq<HeaderClause>) -> ComponentView {
    let name = ontology_name(h);
    ComponentView::OntologyID {
        iri: Some(uri_obo() + name + ".owl"@),
        viri: if data_version_count(h) == 1 {
            let dv = crate::strings::unquoted_escape(first_data_version_raw(h));
            Some(uri_obo() + name + seq!['/'] + dv + seq!['/'] + name + ".owl"@)
        } else {
            None
        },
    }
}

proof fn lemma_data_version_count_mono(h: Seq<HeaderClause>, i: int)
    requires
        0 <= i <= h.len(),
    ensures
        data_version_count(h.subrange(0, i)) <= data_version_count(h),
    decreases h.len() - i,
{
    if i < h.len() {
        let h1 = h.subrange(0, i + 1);
        assert(h1.drop_last() =~= h.subrange(0, i));
        lemma_data_version_count_mono(h, i + 1);
    } else {
        assert(h.subrange(0, i) =~= h);
    }
}

proof fn lemma_first_data_version_at(h: Seq<HeaderClause>, i: int, v: String)
    requires
        0 <= i < h.len(),
        h[i] == HeaderClause::DataVersion(v),
        forall|j: int| 0 <= j < i ==> !(#[trigger] h[j] is DataVersion),
    ensures
        first_data_version_raw(h) == v@,
    decreases i,
{
    if i > 0 {
        let t = h.drop_first();
        assert(t[i - 1] == h[i]);
        assert(forall|j: int| 0 <= j < i - 1 ==> t[j] == h[j + 1]);
        lemma_first_data_version_at(t, i - 1, v);
    }
}

/// The escaped value of the sole `data-version` clause, if the header
/// holds exactly one.
fn data_version(header: &Vec<HeaderClause>) -> (r: Option<String>)
    ensures
        match r {
            Some(s) => data_version_count(header@) == 1 && s@ == unquoted_escape(
                first_data_version_raw(header@),
            ),
            None => data_version_count(header@) != 1,
        },
{
    let ghost h = header@;
    let mut found: Option<String> = None;
    let mut i: usize = 0;
    proof {
        assert(h.subrange(0, 0) =~= Seq::<HeaderClause>::empty());
    }
    while i < header.len()
        invariant
            h == header@,
            i <= h.len(),
            match found {
                Some(s) => data_version_count(h.subrange(0, i as int)) == 1 && s@
                    == unquoted_escape(first_data_version_raw(h)),
                None => data_version_count(h.subrange(0, i as int)) == 0,
            },
        decreases h.len() - i,
    {
        let ghost prefix = h.subrange(0, i as int);
        let ghost prefix1 = h.subrange(0, i + 1int);
        proof {
            assert(prefix1.drop_last() =~= prefix);
            assert(prefix1.last() == h[i as int]);
        }
        if let HeaderClause::DataVersion(v) = &header[i] {
            if found.is_some() {
                proof {
                    lemma_data_version_count_mono(h, i + 1int);
                }
                return None;
            }
            proof {
                assert(forall|j: int| 0 <= j < i ==> !(#[trigger] h[j] is DataVersion)) by {
                    if exists|j: int| 0 <= j < i && #[trigger] h[j] is DataVersion {
                        let j = choose|j: int| 0 <= j < i && #[trigger] h[j] is DataVersion;
                        let pj = h.subrange(0, j + 1int);
                        assert(pj.drop_last() =~= h.subrange(0, j));
                        assert(pj.last() == h[j]);
                        assert(data_version_count(pj) >= 1);
                        lemma_data_version_count_mono(prefix, j + 1int);
                        assert(prefix.subrange(0, j + 1int) =~= pj);
                    }
                }
                lemma_first_data_version_at(h, i as int, *v);
            }
            found = Some(escape_unquoted(v.as_str()));
        }
        i = i + 1;
    }
    proof {
        assert(h.subrange(0, h.len() as int) =~= h);
    }
    found
}

// ---------------------------------------------------------------------------
// The entity fold
// ---------------------------------------------------------------------------

/// Translate the entities in document order, threading the context: each
/// frame first becomes the current frame; a typedef frame also sets the
/// annotation-property flag. Instance frames produce nothing.
pub open spec fn doc_entities_fold(
    es: Seq<EntityFrame>,
    ctx: CtxView,
    acc0: Seq<AnnotatedComponentView>,
) -> Result<(Seq<AnnotatedComponentView>, CtxView), ErrorView>
    decreases es.len(),
{
    if es.len() == 0 {
        Ok((acc0, ctx))
    } else {
        match doc_entities_fold(es.drop_last(), ctx, acc0) {
            Err(e) => Err(e),
            Ok((acc, ctx1)) => {
                let entity = es.last();
                let ctx2 = CtxView {
                    current_frame: resolve_ident(ctx1, entity.spec_id()@),
                    ..ctx1
                };
                match entity {
                    EntityFrame::Term(f) => match term_frame_components(f, ctx2) {
                        Err(e) => Err(e),
                        Ok(cs) => Ok((insert_components(acc, cs), ctx2)),
                    },
                    EntityFrame::Typedef(f) => Ok(
                        (
                            insert_components(acc, typedef_frame_components(f, ctx2)),
                            CtxView { in_annotation: typedef_is_metadata_tag(f), ..ctx2 },
                        ),
                    ),
                    EntityFrame::Instance(_) => Ok((acc, ctx2)),
                }
            },
        }
    }
}

/// One unfolding step of the entity fold.
pub proof fn lemma_doc_entities_unfold(
    es: Seq<EntityFrame>,
    ctx: CtxView,
    acc0: Seq<AnnotatedComponentView>,
    k: int,
)
    requires
        0 <= k < es.len(),
    ensures
        doc_entities_fold(es.subrange(0, k + 1), ctx, acc0) == (match doc_entities_fold(
            es.subrange(0, k),
            ctx,
            acc0,
        ) {
            Err(e) => Err::<(Seq<AnnotatedComponentView>, CtxView), ErrorView>(e),
            Ok((acc, ctx1)) => {
                let entity = es[k];
                let ctx2 = CtxView {
                    current_frame: resolve_ident(ctx1, entity.spec_id()@),
                    ..ctx1
                };
                match entity {
                    EntityFrame::Term(f) => match term_frame_components(f, ctx2) {
                        Err(e) => Err::<(Seq<AnnotatedComponentView>, CtxView), ErrorView>(e),
                        Ok(cs) => Ok((insert_components(acc, cs), ctx2)),
                    },
                    EntityFrame::Typedef(f) => Ok(
                        (
                            insert_components(acc, typedef_frame_components(f, ctx2)),
                            CtxView { in_annotation: typedef_is_metadata_tag(f), ..ctx2 },
                        ),
                    ),
                    EntityFrame::Instance(_) => Ok((acc, ctx2)),
                }
            },
        }),
{
    let p1 = es.subrange(0, k + 1);
    assert(p1.drop_last() =~= es.subrange(0, k));
    assert(p1.last() == es[k]);
}

/// Once a prefix of the entities fails, the whole sequence fails the same
/// way.
pub proof fn lemma_doc_entities_err(
    es: Seq<EntityFrame>,
    ctx: CtxView,
    acc0: Seq<AnnotatedComponentView>,
    i: int,
)
    requires
        0 <= i <= es.len(),
        doc_entities_fold(es.subrange(0, i), ctx, acc0) is Err,
    ensures
        doc_entities_fold(es, ctx, acc0) == doc_entities_fold(es.subrange(0, i), ctx, acc0),
    decreases es.len() - i,
{
    if i < es.len() {
        let p1 = es.subrange(0, i + 1);
        assert(p1.drop_last() =~= es.subrange(0, i));
        lemma_doc_entities_err(es, ctx, acc0, i + 1);
    } else {
        assert(es.subrange(0, i) =~= es);
    }
}

// ---------------------------------------------------------------------------
// Whole-document translation
// ---------------------------------------------------------------------------

/// The components the whole translation starts from, once the context is
/// built: the ontology identifier, the header components, and the forced
/// oboInOwl import.
pub open spec fn doc_base_components(doc: OboDoc) -> Seq<AnnotatedComponentView> {
    let ctx = doc_context(doc);
    insert_component(
        insert_components(
            insert_component(Seq::empty(), plain(ontology_id_component(doc.header@))),
            header_components(doc.header@, ctx),
        ),
        plain(ComponentView::Import(import_obo_in_owl())),
    )
}

/// What translating a whole document yields: the deduplicated component
/// sequence and the joined raw `owl-axioms` text; or the context
/// construction error, or the first malformed qualifier value.
pub open spec fn doc_into_owl(doc: OboDoc) -> Result<
    (Seq<AnnotatedComponentView>, Seq<char>),
    ErrorView,
> {
    if ontology_count(doc.header@) != 1 || !crate::context::iri_ok(
        crate::context::composed_ontology_iri(doc.header@),
    ) {
        Err(crate::context::context_error(doc.header@))
    } else {
        let ctx = doc_context(doc);
        match doc_entities_fold(doc.entities@, ctx, doc_base_components(doc)) {
            Err(e) => Err(e),
            Ok((acc, _)) => Ok((acc, join_newline(owl_axioms_texts(doc.header@)))),
        }
    }
}

impl OboDoc {
    /// Translate the document into an OWL component collection. The
    /// document must already be preprocessed: xref macros expanded, and
    /// default namespaces assigned, as the OBO parser's own passes leave
    /// it.
    #[verifier::rlimit(60)]
    #[verifier::loop_isolation(false)]
    pub fn into_owl(self) -> (r: Result<Ontology, Error>)
        ensures
            match r {
                Ok(o) => doc_into_owl(self) == Ok::<_, ErrorView>(
                    (comps_view(o.components@), o.owl_axioms@),
                ),
                Err(e) => doc_into_owl(self) == Err::<
                    (Seq<AnnotatedComponentView>, Seq<char>),
                    ErrorView,
                >(e@),
            },
    {
        let ghost gdoc = self;
        proof {
            assert(gdoc == self);
        }
        let mut ctx = match Context::from_obodoc(&self) {
            Ok(ctx) => ctx,
            Err(e) => {
                return Err(e);
            },
        };
        let ghost ctx0 = ctx@;
        proof {
            assert(ctx0 == doc_context(gdoc));
        }

        // The ontology identifier.
        let name = escape_ontology_name(&self.header);
        let mut iri = concat2(uri_obo_str(), name.as_str());
        iri.append(".owl");
        proof {
            reveal_strlit(".owl");
            assert(iri@ =~= uri_obo() + name@ + ".owl"@);
        }
        let viri: Option<String> = match data_version(&self.header) {
            Some(dv) => {
                let mut s = concat2(uri_obo_str(), name.as_str());
                s.append("/");
                s.append(dv.as_str());
                s.append("/");
                s.append(name.as_str());
                s.append(".owl");
                proof {
                    reveal_strlit("/");
                    reveal_strlit(".owl");
                    assert("/"@ =~= seq!['/']);
                    assert(s@ =~= uri_obo() + name@ + seq!['/'] + dv@ + seq!['/'] + name@
                        + ".owl"@);
                }
                Some(s)
            },
            None => None,
        };
        let mut components: Vec<AnnotatedComponent> = Vec::new();
        proof {
            assert(comps_view(components@) =~= Seq::<AnnotatedComponentView>::empty());
        }
        push_unique_component(
            &mut components,
            AnnotatedComponent::plain(Component::OntologyID { iri: Some(iri), viri }),
        );
        proof {
            assert(comps_view(components@) == insert_component(
                Seq::<AnnotatedComponentView>::empty(),
                plain(ontology_id_component(gdoc.header@)),
            ));
        }

        // The header.
        let owl_axioms = gather_owl_axioms(&self.header);
        let header_comps = translate_header_frame(&ctx, self.header);
        extend_unique_components(&mut components, header_comps);

        // The forced oboInOwl import.
        push_unique_component(
            &mut components,
            AnnotatedComponent::plain(
                Component::Import(String::from_str(import_obo_in_owl_str())),
            ),
        );
        proof {
            assert(comps_view(components@) == doc_base_components(gdoc));
        }

        // The entities, in document order.
        let ghost all = self.entities@;
        let ghost base = doc_base_components(gdoc);
        let mut entities = self.entities;
        let n = entities.len();
        let mut k: usize = 0;
        proof {
            assert(all.subrange(0, 0) =~= Seq::<EntityFrame>::empty());
        }
        while k < n
            invariant
                n == all.len(),
                k <= n,
                entities@ == all.subrange(k as int, n as int),
                doc_entities_fold(all.subrange(0, k as int), ctx0, base) == Ok::<
                    (Seq<AnnotatedComponentView>, CtxView),
                    ErrorView,
                >((comps_view(components@), ctx@)),
            decreases n - k,
        {
            let entity = entities.remove(0);
            let ghost gentity = entity;
            proof {
                assert(all.subrange(k as int, n as int)[0] == all[k as int]);
                assert(gentity == all[k as int]);
                assert(entities@ =~= all.subrange(k + 1int, n as int));
                lemma_doc_entities_unfold(all, ctx0, base, k as int);
            }
            let frame_iri = ctx.resolve(entity.id());
            ctx.set_current_frame(frame_iri);
            match entity {
                EntityFrame::Term(f) => {
                    match translate_term_frame(&ctx, f) {
                        Err(e) => {
                            proof {
                                lemma_doc_entities_err(all, ctx0, base, k + 1int);
                            }
                            return Err(e);
                        },
                        Ok(cs) => {
                            extend_unique_components(&mut components, cs);
                        },
                    }
                },
                EntityFrame::Typedef(f) => {
                    let cs = translate_typedef_frame(&mut ctx, f);
                    extend_unique_components(&mut components, cs);
                },
                EntityFrame::Instance(_) => {},
            }
            k = k + 1;
        }
        proof {
            assert(all.subrange(0, n as int) =~= all);
        }
        Ok(Ontology { components, owl_axioms })
    }
}

/// The escaped name of the sole `ontology` header clause.
fn escape_ontology_name(header: &Vec<HeaderClause>) -> (r: String)
    requires
        ontology_count(header@) == 1,
    ensures
        r@ == ontology_name(header@),
{
    let ghost h = header@;
    let mut i: usize = 0;
    proof {
        assert(h.subrange(0, 0) =~= Seq::<HeaderClause>::empty());
    }
    while i < header.len()
        invariant
            h == header@,
            ontology_count(h) == 1,
            i <= h.len(),
            ontology_count(h.subrange(0, i as int)) == 0,
        decreases h.len() - i,
    {
        let ghost prefix = h.subrange(0, i as int);
        let ghost prefix1 = h.subrange(0, i + 1int);
        proof {
            assert(prefix1.drop_last() =~= prefix);
            assert(prefix1.last() == h[i as int]);
        }
        if let HeaderClause::Ontology(v) = &header[i] {
            proof {
                assert(forall|j: int| 0 <= j < i ==> !(#[trigger] h[j] is Ontology)) by {
                    if exists|j: int| 0 <= j < i && #[trigger] h[j] is Ontology {
                        let j = choose|j: int| 0 <= j < i && #[trigger] h[j] is Ontology;
                        let pj = h.subrange(0, j + 1int);
                        assert(pj.drop_last() =~= h.subrange(0, j));
                        assert(pj.last() == h[j]);
                        assert(ontology_count(pj) >= 1);
                        lemma_ontology_count_mono_local(prefix, j + 1int);
                        assert(prefix.subrange(0, j + 1int) =~= pj);
                    }
                }
                lemma_first_ontology_at_local(h, i as int, *v);
            }
            return escape_unquoted(v.as_str());
        }
        i = i + 1;
    }
    proof {
        assert(h.subrange(0, h.len() as int) =~= h);
        assert(false);
    }
    vstd::pervasive::unreached()
}

proof fn lemma_ontology_count_mono_local(h: Seq<HeaderClause>, i: int)
    requires
        0 <= i <= h.len(),
    ensures
        ontology_count(h.subrange(0, i)) <= ontology_count(h),
    decreases h.len() - i,
{
    if i < h.len() {
        let h1 = h.subrange(0, i + 1);
        assert(h1.drop_last() =~= h.subrange(0, i));
        lemma_ontology_count_mono_local(h, i + 1);
    } else {
        assert(h.subrange(0, i) =~= h);
    }
}

proof fn lemma_first_ontology_at_local(h: Seq<HeaderClause>, i: int, v: String)
    requires
        0 <= i < h.len(),
        h[i] == HeaderClause::Ontology(v),
        forall|j: int| 0 <= j < i ==> !(#[trigger] h[j] is Ontology),
    ensures
        crate::context::first_ontology_raw(h) == v@,
    decreases i,
{
    if i > 0 {
        let t = h.drop_first();
        assert(t[i - 1] == h[i]);
        assert(forall|j: int| 0 <= j < i - 1 ==> t[j] == h[j + 1]);
        lemma_first_ontology_at_local(t, i - 1, v);
    }
}

} // verus!
