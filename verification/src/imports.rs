//! Planning for ontology imports. The engine itself fetches nothing: these
//! functions decide which URL each import clause asks for and what an
//! imported document contributes, and the host performing the retrieval
//! drives them.

use vstd::prelude::*;

use crate::ast::HeaderClause;
use crate::ast::Import;
use crate::ast::OboDoc;
use crate::ast::id_serialized;
use crate::constants::uri_obo;
use crate::constants::uri_obo_str;
use crate::context::Context;
use crate::context::doc_context;
use crate::context::ontology_count;
use crate::context::str_set;
use crate::error::Error;
use crate::strings::concat3;

verus! {

broadcast use vstd::std_specs::vec::group_vec_axioms;

/// The URL an import clause is fetched from: a URL as it stands, an
/// abbreviated name expanded to the OBO Foundry's flat-file location.
pub open spec fn foundry_url(imp: Import) -> Seq<char> {
    match imp {
        Import::Url(u) => u@,
        Import::Abbreviated(id) => uri_obo() + id_serialized(id@) + ".obo"@,
    }
}

/// The import clauses of a header, in document order.
pub open spec fn header_imports(h: Seq<HeaderClause>) -> Seq<Import>
    decreases h.len(),
{
    if h.len() == 0 {
        Seq::empty()
    } else {
        match h.last() {
            HeaderClause::Import(imp) => header_imports(h.drop_last()).push(imp),
            _ => header_imports(h.drop_last()),
        }
    }
}

/// What one document contributes to import resolution: the relation IRIs
/// of its metadata-tag typedefs, and the imports it declares in turn.
#[derive(Debug, Clone, PartialEq, Eq)]
pub struct ImportData {
    pub annotation_properties: Vec<String>,
    pub imports: Vec<Import>,
}

impl ImportData {
    /// Extract the import data of a document: its metadata-tag relation
    /// IRIs, resolved through its own context, and its import clauses in
    /// order.
    pub fn from_doc(doc: &OboDoc) -> (r: Result<ImportData, Error>)
        ensures
            r is Ok <==> ontology_count(doc.header@) == 1 && crate::context::iri_ok(
                crate::context::composed_ontology_iri(doc.header@),
            ),
            r matches Ok(d) ==> str_set(d.annotation_properties@) == doc_context(
                *doc,
            ).metadata_tag && d.imports@ == header_imports(doc.header@),
            r matches Err(e) ==> e@ == crate::context::context_error(doc.header@),
    {
        let ctx = match Context::from_obodoc(doc) {
            Ok(ctx) => ctx,
            Err(e) => {
                return Err(e);
            },
        };
        let annotation_properties = ctx.metadata_tags();
        let ghost h = doc.header@;
        let mut imports: Vec<Import> = Vec::new();
        let mut i: usize = 0;
        proof {
            assert(h.subrange(0, 0) =~= Seq::<HeaderClause>::empty());
            assert(imports@ =~= header_imports(h.subrange(0, 0)));
        }
        while i < doc.header.len()
            invariant
                h == doc.header@,
                i <= h.len(),
                imports@ == header_imports(h.subrange(0, i as int)),
            decreases h.len() - i,
        {
            proof {
                let prefix1 = h.subrange(0, i + 1int);
                assert(prefix1.drop_last() =~= h.subrange(0, i as int));
                assert(prefix1.last() == h[i as int]);
            }
            match &doc.header[i] {
                HeaderClause::Import(imp) => {
                    imports.push(duplicate_import(imp));
                },
                _ => {},
            }
            i = i + 1;
        }
        proof {
            assert(h.subrange(0, h.len() as int) =~= h);
        }
        Ok(ImportData { annotation_properties, imports })
    }
}

/// An equal copy of an import clause value.
fn duplicate_import(imp: &Import) -> (r: Import)
    ensures
        r == imp,
{
    match imp {
        Import::Url(u) => Import::Url(u.clone()),
        Import::Abbreviated(id) => Import::Abbreviated(id.duplicate()),
    }
}

/// Plans retrievals from the OBO Foundry. The engine never performs them:
/// the host fetches each URL this provider names, parses the document, and
/// folds its import data back in.
#[derive(Debug, Clone, PartialEq, Eq)]
pub struct FoundryProvider {
}

impl FoundryProvider {
    pub fn new() -> (r: FoundryProvider)
        ensures
            r == (FoundryProvider {  }),
    {
        FoundryProvider {  }
    }

    /// The URL to fetch an import from, under the OBO Foundry convention.
    pub fn import_request(&self, imp: &Import) -> (r: String)
        ensures
            r@ == foundry_url(*imp),
    {
        match imp {
            Import::Url(u) => u.clone(),
            Import::Abbreviated(id) => {
                let ser = id.serialized();
                concat3(uri_obo_str(), ser.as_str(), ".obo")
            },
        }
    }
}

} // verus!
