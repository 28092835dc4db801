//! The IRI constants of the OBO to OWL mapping: base URIs, datatypes and
//! annotation properties. Each constant has a specification-level value
//! and an executable twin returning the same text.

use vstd::prelude::*;

verus! {

/// Base URI of the OBO Foundry permanent identifiers.
pub open spec fn uri_obo() -> Seq<char> {
    "http://purl.obolibrary.org/obo/"@
}

pub fn uri_obo_str() -> (r: &'static str)
    ensures
        r@ == uri_obo(),
{
    "http://purl.obolibrary.org/obo/"
}

/// Base URI of the oboInOwl annotation vocabulary.
pub open spec fn uri_obo_in_owl() -> Seq<char> {
    "http://www.geneontology.org/formats/oboInOwl#"@
}

pub fn uri_obo_in_owl_str() -> (r: &'static str)
    ensures
        r@ == uri_obo_in_owl(),
{
    "http://www.geneontology.org/formats/oboInOwl#"
}

/// Base URI of the XML Schema datatypes.
pub open spec fn uri_xsd() -> Seq<char> {
    "http://www.w3.org/2001/XMLSchema#"@
}

pub fn uri_xsd_str() -> (r: &'static str)
    ensures
        r@ == uri_xsd(),
{
    "http://www.w3.org/2001/XMLSchema#"
}

/// Base URI of the Dublin Core elements.
pub open spec fn uri_dc() -> Seq<char> {
    "http://purl.org/dc/elements/1.1/"@
}

pub fn uri_dc_str() -> (r: &'static str)
    ensures
        r@ == uri_dc(),
{
    "http://purl.org/dc/elements/1.1/"
}

/// Base URI of the RDF Schema vocabulary.
pub open spec fn uri_rdfs() -> Seq<char> {
    "http://www.w3.org/2000/01/rdf-schema#"@
}

pub fn uri_rdfs_str() -> (r: &'static str)
    ensures
        r@ == uri_rdfs(),
{
    "http://www.w3.org/2000/01/rdf-schema#"
}

/// Base URI of the OWL vocabulary.
pub open spec fn uri_owl() -> Seq<char> {
    "http://www.w3.org/2002/07/owl#"@
}

pub fn uri_owl_str() -> (r: &'static str)
    ensures
        r@ == uri_owl(),
{
    "http://www.w3.org/2002/07/owl#"
}

/// Base URI of the XML namespace.
pub open spec fn uri_xml() -> Seq<char> {
    "http://www.w3.org/XML/1998/namespace"@
}

pub fn uri_xml_str() -> (r: &'static str)
    ensures
        r@ == uri_xml(),
{
    "http://www.w3.org/XML/1998/namespace"
}

/// Base URI of the RDF vocabulary.
pub open spec fn uri_rdf() -> Seq<char> {
    "http://www.w3.org/1999/02/22-rdf-syntax-ns#"@
}

pub fn uri_rdf_str() -> (r: &'static str)
    ensures
        r@ == uri_rdf(),
{
    "http://www.w3.org/1999/02/22-rdf-syntax-ns#"
}

/// IRI of the oboInOwl ontology, imported into every translation.
pub open spec fn import_obo_in_owl() -> Seq<char> {
    "http://www.geneontology.org/formats/oboInOwl"@
}

pub fn import_obo_in_owl_str() -> (r: &'static str)
    ensures
        r@ == import_obo_in_owl(),
{
    "http://www.geneontology.org/formats/oboInOwl"
}

/// The xsd:string datatype.
pub open spec fn xsd_string() -> Seq<char> {
    "http://www.w3.org/2001/XMLSchema#string"@
}

pub fn xsd_string_str() -> (r: &'static str)
    ensures
        r@ == xsd_string(),
{
    "http://www.w3.org/2001/XMLSchema#string"
}

/// The xsd:boolean datatype.
pub open spec fn xsd_boolean() -> Seq<char> {
    "http://www.w3.org/2001/XMLSchema#boolean"@
}

pub fn xsd_boolean_str() -> (r: &'static str)
    ensures
        r@ == xsd_boolean(),
{
    "http://www.w3.org/2001/XMLSchema#boolean"
}

/// The xsd:dateTime datatype.
pub open spec fn xsd_datetime() -> Seq<char> {
    "http://www.w3.org/2001/XMLSchema#dateTime"@
}

pub fn xsd_datetime_str() -> (r: &'static str)
    ensures
        r@ == xsd_datetime(),
{
    "http://www.w3.org/2001/XMLSchema#dateTime"
}

/// The xsd:date datatype.
pub open spec fn xsd_date() -> Seq<char> {
    "http://www.w3.org/2001/XMLSchema#date"@
}

pub fn xsd_date_str() -> (r: &'static str)
    ensures
        r@ == xsd_date(),
{
    "http://www.w3.org/2001/XMLSchema#date"
}

/// Annotation property for the format-version header clause.
pub open spec fn ap_has_obo_format_version() -> Seq<char> {
    "http://www.geneontology.org/formats/oboInOwl#hasOBOFormatVersion"@
}

pub fn ap_has_obo_format_version_str() -> (r: &'static str)
    ensures
        r@ == ap_has_obo_format_version(),
{
    "http://www.geneontology.org/formats/oboInOwl#hasOBOFormatVersion"
}

/// Annotation property for the date header clause.
pub open spec fn ap_has_date() -> Seq<char> {
    "http://www.geneontology.org/formats/oboInOwl#hasDate"@
}

pub fn ap_has_date_str() -> (r: &'static str)
    ensures
        r@ == ap_has_date(),
{
    "http://www.geneontology.org/formats/oboInOwl#hasDate"
}

/// Annotation property for the saved-by header clause.
pub open spec fn ap_saved_by() -> Seq<char> {
    "http://www.geneontology.org/formats/oboInOwl#savedBy"@
}

pub fn ap_saved_by_str() -> (r: &'static str)
    ensures
        r@ == ap_saved_by(),
{
    "http://www.geneontology.org/formats/oboInOwl#savedBy"
}

/// Annotation property for the auto-generated-by header clause.
pub open spec fn ap_auto_generated_by() -> Seq<char> {
    "http://www.geneontology.org/formats/oboInOwl#autoGeneratedBy"@
}

pub fn ap_auto_generated_by_str() -> (r: &'static str)
    ensures
        r@ == ap_auto_generated_by(),
{
    "http://www.geneontology.org/formats/oboInOwl#autoGeneratedBy"
}

/// Annotation property for the default-namespace header clause.
pub open spec fn ap_has_default_namespace() -> Seq<char> {
    "http://www.geneontology.org/formats/oboInOwl#hasDefaultNamespace"@
}

pub fn ap_has_default_namespace_str() -> (r: &'static str)
    ensures
        r@ == ap_has_default_namespace(),
{
    "http://www.geneontology.org/formats/oboInOwl#hasDefaultNamespace"
}

/// Annotation property for the namespace-id-rule header clause.
pub open spec fn ap_namespace_id_rule() -> Seq<char> {
    "http://www.geneontology.org/formats/oboInOwl#NamespaceIdRule"@
}

pub fn ap_namespace_id_rule_str() -> (r: &'static str)
    ensures
        r@ == ap_namespace_id_rule(),
{
    "http://www.geneontology.org/formats/oboInOwl#NamespaceIdRule"
}

/// Parent annotation property of every subset declared by subsetdef.
pub open spec fn ap_subset_property() -> Seq<char> {
    "http://www.geneontology.org/formats/oboInOwl#SubsetProperty"@
}

pub fn ap_subset_property_str() -> (r: &'static str)
    ensures
        r@ == ap_subset_property(),
{
    "http://www.geneontology.org/formats/oboInOwl#SubsetProperty"
}

/// Parent annotation property of every synonym type declared by synonymtypedef.
pub open spec fn ap_synonym_type_property() -> Seq<char> {
    "http://www.geneontology.org/formats/oboInOwl#SynonymTypeProperty"@
}

pub fn ap_synonym_type_property_str() -> (r: &'static str)
    ensures
        r@ == ap_synonym_type_property(),
{
    "http://www.geneontology.org/formats/oboInOwl#SynonymTypeProperty"
}

/// Annotation property for the scope of a synonym type definition.
pub open spec fn ap_has_scope() -> Seq<char> {
    "http://www.geneontology.org/formats/oboInOwl#hasScope"@
}

pub fn ap_has_scope_str() -> (r: &'static str)
    ensures
        r@ == ap_has_scope(),
{
    "http://www.geneontology.org/formats/oboInOwl#hasScope"
}

/// Annotation property for namespace clauses.
pub open spec fn ap_has_obo_namespace() -> Seq<char> {
    "http://www.geneontology.org/formats/oboInOwl#hasOBONamespace"@
}

pub fn ap_has_obo_namespace_str() -> (r: &'static str)
    ensures
        r@ == ap_has_obo_namespace(),
{
    "http://www.geneontology.org/formats/oboInOwl#hasOBONamespace"
}

/// Annotation property for alt_id clauses.
pub open spec fn ap_has_alternative_id() -> Seq<char> {
    "http://www.geneontology.org/formats/oboInOwl#hasAlternativeId"@
}

pub fn ap_has_alternative_id_str() -> (r: &'static str)
    ensures
        r@ == ap_has_alternative_id(),
{
    "http://www.geneontology.org/formats/oboInOwl#hasAlternativeId"
}

/// Annotation property carrying the original OBO identifier of a frame.
pub open spec fn ap_id() -> Seq<char> {
    "http://www.geneontology.org/formats/oboInOwl#id"@
}

pub fn ap_id_str() -> (r: &'static str)
    ensures
        r@ == ap_id(),
{
    "http://www.geneontology.org/formats/oboInOwl#id"
}

/// Annotation property for subset clauses.
pub open spec fn ap_in_subset() -> Seq<char> {
    "http://www.geneontology.org/formats/oboInOwl#inSubset"@
}

pub fn ap_in_subset_str() -> (r: &'static str)
    ensures
        r@ == ap_in_subset(),
{
    "http://www.geneontology.org/formats/oboInOwl#inSubset"
}

/// Annotation property for cross-references.
pub open spec fn ap_has_dbxref() -> Seq<char> {
    "http://www.geneontology.org/formats/oboInOwl#hasDbXref"@
}

pub fn ap_has_dbxref_str() -> (r: &'static str)
    ensures
        r@ == ap_has_dbxref(),
{
    "http://www.geneontology.org/formats/oboInOwl#hasDbXref"
}

/// Annotation property for consider clauses.
pub open spec fn ap_consider() -> Seq<char> {
    "http://www.geneontology.org/formats/oboInOwl#consider"@
}

pub fn ap_consider_str() -> (r: &'static str)
    ensures
        r@ == ap_consider(),
{
    "http://www.geneontology.org/formats/oboInOwl#consider"
}

/// Annotation property for the is_cyclic typedef characteristic.
pub open spec fn ap_is_cyclic() -> Seq<char> {
    "http://www.geneontology.org/formats/oboInOwl#is_cyclic"@
}

pub fn ap_is_cyclic_str() -> (r: &'static str)
    ensures
        r@ == ap_is_cyclic(),
{
    "http://www.geneontology.org/formats/oboInOwl#is_cyclic"
}

/// Annotation property recording a disjoint_over clause, which OWL2 cannot
/// express as a property axiom.
pub open spec fn ap_disjoint_over() -> Seq<char> {
    "http://www.geneontology.org/formats/oboInOwl#disjoint_over"@
}

pub fn ap_disjoint_over_str() -> (r: &'static str)
    ensures
        r@ == ap_disjoint_over(),
{
    "http://www.geneontology.org/formats/oboInOwl#disjoint_over"
}

/// Annotation property for broad synonyms.
pub open spec fn ap_has_broad_synonym() -> Seq<char> {
    "http://www.geneontology.org/formats/oboInOwl#hasBroadSynonym"@
}

pub fn ap_has_broad_synonym_str() -> (r: &'static str)
    ensures
        r@ == ap_has_broad_synonym(),
{
    "http://www.geneontology.org/formats/oboInOwl#hasBroadSynonym"
}

/// Annotation property for exact synonyms.
pub open spec fn ap_has_exact_synonym() -> Seq<char> {
    "http://www.geneontology.org/formats/oboInOwl#hasExactSynonym"@
}

pub fn ap_has_exact_synonym_str() -> (r: &'static str)
    ensures
        r@ == ap_has_exact_synonym(),
{
    "http://www.geneontology.org/formats/oboInOwl#hasExactSynonym"
}

/// Annotation property for narrow synonyms.
pub open spec fn ap_has_narrow_synonym() -> Seq<char> {
    "http://www.geneontology.org/formats/oboInOwl#hasNarrowSynonym"@
}

pub fn ap_has_narrow_synonym_str() -> (r: &'static str)
    ensures
        r@ == ap_has_narrow_synonym(),
{
    "http://www.geneontology.org/formats/oboInOwl#hasNarrowSynonym"
}

/// Annotation property for related synonyms.
pub open spec fn ap_has_related_synonym() -> Seq<char> {
    "http://www.geneontology.org/formats/oboInOwl#hasRelatedSynonym"@
}

pub fn ap_has_related_synonym_str() -> (r: &'static str)
    ensures
        r@ == ap_has_related_synonym(),
{
    "http://www.geneontology.org/formats/oboInOwl#hasRelatedSynonym"
}

/// Annotation property linking a synonym to its declared type.
pub open spec fn ap_has_synonym_type() -> Seq<char> {
    "http://www.geneontology.org/formats/oboInOwl#hasSynonymType"@
}

pub fn ap_has_synonym_type_str() -> (r: &'static str)
    ensures
        r@ == ap_has_synonym_type(),
{
    "http://www.geneontology.org/formats/oboInOwl#hasSynonymType"
}

/// Annotation property for is_obsolete clauses.
pub open spec fn owl_deprecated() -> Seq<char> {
    "http://www.w3.org/2002/07/owl#deprecated"@
}

pub fn owl_deprecated_str() -> (r: &'static str)
    ensures
        r@ == owl_deprecated(),
{
    "http://www.w3.org/2002/07/owl#deprecated"
}

/// Annotation property for name clauses and cross-reference descriptions.
pub open spec fn rdfs_label() -> Seq<char> {
    "http://www.w3.org/2000/01/rdf-schema#label"@
}

pub fn rdfs_label_str() -> (r: &'static str)
    ensures
        r@ == rdfs_label(),
{
    "http://www.w3.org/2000/01/rdf-schema#label"
}

/// Annotation property for comment and remark clauses.
pub open spec fn rdfs_comment() -> Seq<char> {
    "http://www.w3.org/2000/01/rdf-schema#comment"@
}

pub fn rdfs_comment_str() -> (r: &'static str)
    ensures
        r@ == rdfs_comment(),
{
    "http://www.w3.org/2000/01/rdf-schema#comment"
}

/// Annotation property for created_by clauses.
pub open spec fn dc_creator() -> Seq<char> {
    "http://purl.org/dc/elements/1.1/creator"@
}

pub fn dc_creator_str() -> (r: &'static str)
    ensures
        r@ == dc_creator(),
{
    "http://purl.org/dc/elements/1.1/creator"
}

/// Annotation property for creation_date clauses.
pub open spec fn dc_date() -> Seq<char> {
    "http://purl.org/dc/elements/1.1/date"@
}

pub fn dc_date_str() -> (r: &'static str)
    ensures
        r@ == dc_date(),
{
    "http://purl.org/dc/elements/1.1/date"
}

/// Annotation property for replaced_by clauses.
pub open spec fn iao_replaced_by() -> Seq<char> {
    "http://purl.obolibrary.org/obo/IAO_0100001"@
}

pub fn iao_replaced_by_str() -> (r: &'static str)
    ensures
        r@ == iao_replaced_by(),
{
    "http://purl.obolibrary.org/obo/IAO_0100001"
}

/// Annotation property for definition clauses.
pub open spec fn iao_definition() -> Seq<char> {
    "http://purl.obolibrary.org/obo/IAO_0000115"@
}

pub fn iao_definition_str() -> (r: &'static str)
    ensures
        r@ == iao_definition(),
{
    "http://purl.obolibrary.org/obo/IAO_0000115"
}

/// Annotation property for the is_anti_symmetric typedef characteristic.
pub open spec fn iao_anti_symmetric() -> Seq<char> {
    "http://purl.obolibrary.org/obo/IAO_0000427"@
}

pub fn iao_anti_symmetric_str() -> (r: &'static str)
    ensures
        r@ == iao_anti_symmetric(),
{
    "http://purl.obolibrary.org/obo/IAO_0000427"
}

/// Annotation property for expand_assertion_to clauses.
pub open spec fn iao_expand_assertion_to() -> Seq<char> {
    "http://purl.obolibrary.org/obo/IAO_0000425"@
}

pub fn iao_expand_assertion_to_str() -> (r: &'static str)
    ensures
        r@ == iao_expand_assertion_to(),
{
    "http://purl.obolibrary.org/obo/IAO_0000425"
}

/// Annotation property for expand_expression_to clauses.
pub open spec fn iao_expand_expression_to() -> Seq<char> {
    "http://purl.obolibrary.org/obo/IAO_0000424"@
}

pub fn iao_expand_expression_to_str() -> (r: &'static str)
    ensures
        r@ == iao_expand_expression_to(),
{
    "http://purl.obolibrary.org/obo/IAO_0000424"
}

} // verus!