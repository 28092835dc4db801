//! Translation of parsed OBO ontology documents into the OWL2 model,
//! following the OBO flat-file format guide's OBO to OWL2 mapping.
//!
//! The input is an already-parsed, macro-expanded document
//! ([`ast::OboDoc`]); the output is a deduplicated collection of annotated
//! OWL components ([`doc::Ontology`]) for an OWL serializer to render.
//! [`ast::OboDoc::into_owl`] runs the whole pipeline: it builds the
//! conversion context ([`context::Context`]), emits the ontology
//! identifier, translates the header and then every term and typedef frame
//! in document order. The laws the translation obeys are stated and proved
//! in [`laws`].

pub mod ast;
pub mod constants;
pub mod context;
pub mod doc;
pub mod error;
pub mod expr;
pub mod header;
pub mod imports;
pub mod laws;
pub mod owl;
pub mod prefixes;
pub mod strings;
pub mod term;
pub mod typedef;
pub mod values;
