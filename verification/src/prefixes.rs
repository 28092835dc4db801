//! CURIE prefix mappings for the serializer's benefit: the prefixes the
//! OBO format declares implicitly, plus every idspace of a document's
//! header. The mapping itself is the curie crate's; its behaviour is
//! declared here and trusted.

use vstd::prelude::*;

use crate::ast::HeaderClause;
use crate::ast::OboDoc;
use crate::constants::uri_dc;
use crate::constants::uri_dc_str;
use crate::constants::uri_obo;
use crate::constants::uri_obo_str;
use crate::constants::uri_obo_in_owl;
use crate::constants::uri_obo_in_owl_str;
use crate::constants::uri_owl;
use crate::constants::uri_owl_str;
use crate::constants::uri_rdf;
use crate::constants::uri_rdf_str;
use crate::constants::uri_rdfs;
use crate::constants::uri_rdfs_str;
use crate::constants::uri_xml;
use crate::constants::uri_xml_str;
use crate::constants::uri_xsd;
use crate::constants::uri_xsd_str;

verus! {

broadcast use vstd::string::group_string_axioms;

#[verifier::external_type_specification]
#[verifier::external_body]
pub struct ExPrefixMapping(curie::PrefixMapping);

/// What a prefix mapping holds: each registered prefix with its base URI.
pub uninterp spec fn prefix_entries(m: curie::PrefixMapping) -> Map<Seq<char>, Seq<char>>;

/// A mapping with nothing registered.
pub open spec fn no_prefixes() -> Map<Seq<char>, Seq<char>> {
    Map::empty()
}

/// Relies on `curie::PrefixMapping::default`: a mapping that starts with
/// no prefix registered.
#[verifier::external_body]
fn prefix_mapping_new() -> (r: curie::PrefixMapping)
    ensures
        prefix_entries(r) == no_prefixes(),
{
    curie::PrefixMapping::default()
}

/// Relies on `curie::PrefixMapping::add_prefix`: it refuses the reserved
/// prefix `_` and leaves the mapping unchanged, and otherwise records the
/// prefix with its base, overriding an earlier entry.
#[verifier::external_body]
fn prefix_mapping_add(m: &mut curie::PrefixMapping, prefix: &str, value: &str) -> (r: bool)
    ensures
        r == (prefix@ != "_"@),
        r ==> prefix_entries(*final(m)) == prefix_entries(*old(m)).insert(prefix@, value@),
        !r ==> prefix_entries(*final(m)) == prefix_entries(*old(m)),
{
    m.add_prefix(prefix, value).is_ok()
}

/// The prefixes every translated document carries implicitly.
pub open spec fn obo_prefix_map() -> Map<Seq<char>, Seq<char>> {
    no_prefixes().insert("xsd"@, uri_xsd()).insert("owl"@, uri_owl())
        .insert("obo"@, uri_obo()).insert("oboInOwl"@, uri_obo_in_owl()).insert("xml"@, uri_xml())
        .insert("rdf"@, uri_rdf()).insert("dc"@, uri_dc()).insert("rdfs"@, uri_rdfs())
}

/// The prefixes of a whole document: the implicit ones, plus each idspace
/// of the header, in order. The reserved prefix `_` cannot be registered
/// and is passed over.
pub open spec fn doc_prefix_map(h: Seq<HeaderClause>) -> Map<Seq<char>, Seq<char>>
    decreases h.len(),
{
    if h.len() == 0 {
        obo_prefix_map()
    } else {
        let m = doc_prefix_map(h.drop_last());
        match h.last() {
            HeaderClause::Idspace(p, u, _) => if p@ == "_"@ {
                m
            } else {
                m.insert(p@, u@)
            },
            _ => m,
        }
    }
}

/// A prefix mapping holding the prefixes the OBO format declares
/// implicitly for every translated document.
pub fn obo_prefixes() -> (m: curie::PrefixMapping)
    ensures
        prefix_entries(m) == obo_prefix_map(),
{
    proof {
        reveal_strlit("_");
        reveal_strlit("xsd");
        reveal_strlit("owl");
        reveal_strlit("obo");
        reveal_strlit("oboInOwl");
        reveal_strlit("xml");
        reveal_strlit("rdf");
        reveal_strlit("dc");
        reveal_strlit("rdfs");
        assert("_"@.len() == 1);
        assert("xsd"@.len() == 3);
        assert("owl"@.len() == 3);
        assert("obo"@.len() == 3);
        assert("oboInOwl"@.len() == 8);
        assert("xml"@.len() == 3);
        assert("rdf"@.len() == 3);
        assert("dc"@.len() == 2);
        assert("rdfs"@.len() == 4);
        assert("xsd"@ != "_"@);
        assert("owl"@ != "_"@);
        assert("obo"@ != "_"@);
        assert("oboInOwl"@ != "_"@);
        assert("xml"@ != "_"@);
        assert("rdf"@ != "_"@);
        assert("dc"@ != "_"@);
        assert("rdfs"@ != "_"@);
    }
    let mut m = prefix_mapping_new();
    prefix_mapping_add(&mut m, "xsd", uri_xsd_str());
    prefix_mapping_add(&mut m, "owl", uri_owl_str());
    prefix_mapping_add(&mut m, "obo", uri_obo_str());
    prefix_mapping_add(&mut m, "oboInOwl", uri_obo_in_owl_str());
    prefix_mapping_add(&mut m, "xml", uri_xml_str());
    prefix_mapping_add(&mut m, "rdf", uri_rdf_str());
    prefix_mapping_add(&mut m, "dc", uri_dc_str());
    prefix_mapping_add(&mut m, "rdfs", uri_rdfs_str());
    m
}

impl OboDoc {
    /// The CURIE prefix mapping of this document: the implicit OBO
    /// prefixes plus every idspace declared in the header, for the OWL
    /// serializer to shorten IRIs with.
    pub fn prefixes(&self) -> (m: curie::PrefixMapping)
        ensures
            prefix_entries(m) == doc_prefix_map(self.header@),
    {
        let ghost h = self.header@;
        let mut m = obo_prefixes();
        let mut i: usize = 0;
        proof {
            assert(h.subrange(0, 0) =~= Seq::<HeaderClause>::empty());
            assert(doc_prefix_map(h.subrange(0, 0)) == obo_prefix_map());
        }
        while i < self.header.len()
            invariant
                h == self.header@,
                i <= h.len(),
                prefix_entries(m) == doc_prefix_map(h.subrange(0, i as int)),
            decreases h.len() - i,
        {
            proof {
                let prefix1 = h.subrange(0, i + 1int);
                assert(prefix1.drop_last() =~= h.subrange(0, i as int));
                assert(prefix1.last() == h[i as int]);
            }
            match &self.header[i] {
                HeaderClause::Idspace(p, u, _) => {
                    prefix_mapping_add(&mut m, p.as_str(), u.as_str());
                },
                _ => {},
            }
            i = i + 1;
        }
        proof {
            assert(h.subrange(0, h.len() as int) =~= h);
        }
        m
    }
}

} // verus!
