//! The conversion context: the idspace table, the ontology IRI, the frame
//! currently being translated, the class-level and metadata-tag relation
//! sets gathered from the typedef frames, and the typedef shorthand aliases.
//! Built once per document, before any frame is translated.

use vstd::prelude::*;

use crate::ast::EntityFrame;
use crate::ast::HeaderClause;
use crate::ast::Ident;
use crate::ast::IdentView;
use crate::ast::OboDoc;
use crate::ast::TypedefClause;
use crate::ast::TypedefFrame;
use crate::constants::uri_obo;
use crate::constants::uri_obo_str;
use crate::constants::uri_xsd_str;
use crate::error::Error;
use crate::error::ErrorView;
use crate::strings::concat2;
use crate::strings::str_eq;
use crate::strings::unquoted_escape;
use crate::strings::escape_unquoted;

verus! {

broadcast use vstd::std_specs::vec::group_vec_axioms;

// ---------------------------------------------------------------------------
// Association lists and string sets
// ---------------------------------------------------------------------------

/// The mapping an association list denotes: a later entry overrides an
/// earlier one with the same key.
pub open spec fn assoc_map(s: Seq<(String, String)>) -> Map<Seq<char>, Seq<char>>
    decreases s.len(),
{
    if s.len() == 0 {
        Map::empty()
    } else {
        assoc_map(s.drop_last()).insert(s.last().0@, s.last().1@)
    }
}

/// Entries after position `i` whose keys all differ from `key` do not
/// change what the map holds at `key`.
proof fn lemma_assoc_skip(s: Seq<(String, String)>, i: int, key: Seq<char>)
    requires
        0 <= i <= s.len(),
        forall|k: int| i <= k < s.len() ==> #[trigger] s[k].0@ != key,
    ensures
        assoc_map(s).contains_key(key) == assoc_map(s.subrange(0, i)).contains_key(key),
        assoc_map(s).contains_key(key) ==> assoc_map(s)[key] == assoc_map(s.subrange(0, i))[key],
    decreases s.len() - i,
{
    if i < s.len() {
        assert(s.last().0@ != key);
        lemma_assoc_skip(s.drop_last(), i, key);
        assert(s.drop_last().subrange(0, i) =~= s.subrange(0, i));
    } else {
        assert(s.subrange(0, i) =~= s);
    }
}

/// Look a key up in an association list, later entries first.
pub fn assoc_get<'a>(v: &'a Vec<(String, String)>, key: &str) -> (r: Option<&'a String>)
    ensures
        match r {
            Some(val) => assoc_map(v@).contains_key(key@) && assoc_map(v@)[key@] == val@,
            None => !assoc_map(v@).contains_key(key@),
        },
{
    let mut i: usize = v.len();
    while i > 0
        invariant
            i <= v@.len(),
            forall|k: int| i <= k < v@.len() ==> #[trigger] v@[k].0@ != key@,
        decreases i,
    {
        i = i - 1;
        if str_eq(v[i].0.as_str(), key) {
            proof {
                let prefix = v@.subrange(0, i + 1int);
                assert(prefix.drop_last() =~= v@.subrange(0, i as int));
                assert(prefix.last() == v@[i as int]);
                assert(assoc_map(prefix).contains_key(key@));
                assert(assoc_map(prefix)[key@] == v@[i as int].1@);
                lemma_assoc_skip(v@, i + 1int, key@);
            }
            return Some(&v[i].1);
        }
    }
    proof {
        lemma_assoc_skip(v@, 0, key@);
        assert(v@.subrange(0, 0) =~= Seq::<(String, String)>::empty());
    }
    None
}

/// The set of strings a vector holds, as character sequences.
pub open spec fn str_set(s: Seq<String>) -> Set<Seq<char>>
    decreases s.len(),
{
    if s.len() == 0 {
        Set::empty()
    } else {
        str_set(s.drop_last()).insert(s.last()@)
    }
}

pub proof fn lemma_str_set(s: Seq<String>)
    ensures
        forall|x: Seq<char>| #[trigger]
            str_set(s).contains(x) <==> exists|j: int| 0 <= j < s.len() && s[j]@ == x,
    decreases s.len(),
{
    if s.len() > 0 {
        lemma_str_set(s.drop_last());
        assert forall|x: Seq<char>| #[trigger] str_set(s).contains(x) implies exists|j: int|
            0 <= j < s.len() && s[j]@ == x by {
            if s.last()@ == x {
                assert(s[s.len() - 1]@ == x);
            } else {
                assert(str_set(s.drop_last()).contains(x));
                let j = choose|j: int| 0 <= j < s.drop_last().len() && s.drop_last()[j]@ == x;
                assert(s.drop_last()[j] == s[j]);
                assert(s[j]@ == x);
            }
        }
        assert forall|x: Seq<char>|
            (exists|j: int| 0 <= j < s.len() && s[j]@ == x) implies #[trigger] str_set(s).contains(
            x,
        ) by {
            let j = choose|j: int| 0 <= j < s.len() && s[j]@ == x;
            if j < s.len() - 1 {
                assert(s.drop_last()[j] == s[j]);
                assert(str_set(s.drop_last()).contains(x));
            } else {
                assert(s.last()@ == x);
            }
        }
    }
}

/// Whether the set denoted by `v` holds `key`.
pub fn str_set_contains(v: &Vec<String>, key: &str) -> (r: bool)
    ensures
        r == str_set(v@).contains(key@),
{
    proof {
        lemma_str_set(v@);
    }
    let mut i: usize = 0;
    while i < v.len()
        invariant
            i <= v@.len(),
            forall|j: int| 0 <= j < i ==> #[trigger] v@[j]@ != key@,
        decreases v@.len() - i,
    {
        if str_eq(v[i].as_str(), key) {
            proof {
                lemma_str_set(v@);
            }
            return true;
        }
        i = i + 1;
    }
    proof {
        lemma_str_set(v@);
    }
    false
}

/// The mapping a shorthand table denotes.
pub open spec fn shorthand_map(s: Seq<(String, Ident)>) -> Map<Seq<char>, IdentView>
    decreases s.len(),
{
    if s.len() == 0 {
        Map::empty()
    } else {
        shorthand_map(s.drop_last()).insert(s.last().0@, s.last().1@)
    }
}

// ---------------------------------------------------------------------------
// The context and identifier resolution
// ---------------------------------------------------------------------------

/// The mathematical model of a conversion context.
pub struct CtxView {
    /// Idspace prefixes mapped to their URL bases.
    pub idspaces: Map<Seq<char>, Seq<char>>,
    /// The IRI of the ontology being translated.
    pub ontology_iri: Seq<char>,
    /// The IRI of the frame currently being translated.
    pub current_frame: Seq<char>,
    /// Whether the current frame is translated as an annotation property.
    pub in_annotation: bool,
    /// Unprefixed typedef identifiers aliased to their first prefixed or
    /// URL cross-reference.
    pub shorthands: Map<Seq<char>, IdentView>,
    /// The relation IRIs declared class-level.
    pub class_level: Set<Seq<char>>,
    /// The relation IRIs declared metadata tags.
    pub metadata_tag: Set<Seq<char>>,
}

/// What an identifier resolves to, given an idspace table and the ontology
/// IRI. Total: an unknown prefix falls back to the OBO Foundry convention.
pub open spec fn resolve_parts(
    idspaces: Map<Seq<char>, Seq<char>>,
    ontology_iri: Seq<char>,
    id: IdentView,
) -> Seq<char> {
    match id {
        IdentView::Prefixed { prefix, local } => if idspaces.contains_key(prefix) {
            idspaces[prefix] + local
        } else {
            uri_obo() + prefix + seq!['_'] + local
        },
        IdentView::Unprefixed { local } => ontology_iri + seq!['#'] + local,
        IdentView::Url { url } => url,
    }
}

/// Resolution against a full context reads the idspace table and the
/// ontology IRI and nothing else.
pub open spec fn resolve_ident(ctx: CtxView, id: IdentView) -> Seq<char> {
    resolve_parts(ctx.idspaces, ctx.ontology_iri, id)
}

/// The cross-cutting state of one document translation.
pub struct Context {
    idspaces: Vec<(String, String)>,
    ontology_iri: String,
    current_frame: String,
    in_annotation: bool,
    shorthands: Vec<(String, Ident)>,
    class_level: Vec<String>,
    metadata_tag: Vec<String>,
}

impl View for Context {
    type V = CtxView;

    closed spec fn view(&self) -> CtxView {
        CtxView {
            idspaces: assoc_map(self.idspaces@),
            ontology_iri: self.ontology_iri@,
            current_frame: self.current_frame@,
            in_annotation: self.in_annotation,
            shorthands: shorthand_map(self.shorthands@),
            class_level: str_set(self.class_level@),
            metadata_tag: str_set(self.metadata_tag@),
        }
    }
}

impl Context {
    /// Resolve an identifier to an IRI. Total and pure: the result depends
    /// on the idspace table and the ontology IRI alone.
    pub fn resolve(&self, id: &Ident) -> (r: String)
        ensures
            r@ == resolve_ident(self@, id@),
    {
        match id {
            Ident::Prefixed { prefix, local } => match assoc_get(&self.idspaces, prefix.as_str()) {
                Some(base) => concat2(base.as_str(), local.as_str()),
                None => {
                    let mut s = concat2(uri_obo_str(), prefix.as_str());
                    s.append("_");
                    proof {
                        reveal_strlit("_");
                        assert("_"@ =~= seq!['_']);
                    }
                    s.append(local.as_str());
                    proof {
                        assert(s@ =~= uri_obo() + prefix@ + seq!['_'] + local@);
                    }
                    s
                },
            },
            Ident::Unprefixed { local } => {
                let mut s = self.ontology_iri.clone();
                s.append("#");
                proof {
                    reveal_strlit("#");
                    assert("#"@ =~= seq!['#']);
                }
                s.append(local.as_str());
                proof {
                    assert(s@ =~= self.ontology_iri@ + seq!['#'] + local@);
                }
                s
            },
            Ident::Url { url } => url.clone(),
        }
    }

    /// The IRI of the frame being translated.
    pub fn current_frame(&self) -> (r: &String)
        ensures
            r@ == self@.current_frame,
    {
        &self.current_frame
    }

    /// The IRI of the ontology being translated.
    pub fn ontology_iri(&self) -> (r: &String)
        ensures
            r@ == self@.ontology_iri,
    {
        &self.ontology_iri
    }

    /// Whether the current frame is translated as an annotation property.
    pub fn in_annotation(&self) -> (r: bool)
        ensures
            r == self@.in_annotation,
    {
        self.in_annotation
    }

    /// Point the context at the frame about to be translated.
    pub fn set_current_frame(&mut self, iri: String)
        ensures
            final(self)@ == (CtxView { current_frame: iri@, ..old(self)@ }),
    {
        self.current_frame = iri;
    }

    /// Record whether the frame being translated is an annotation property.
    pub fn set_in_annotation(&mut self, b: bool)
        ensures
            final(self)@ == (CtxView { in_annotation: b, ..old(self)@ }),
    {
        self.in_annotation = b;
    }

    /// The relation IRIs declared metadata tags, as a list.
    pub fn metadata_tags(&self) -> (r: Vec<String>)
        ensures
            str_set(r@) == self@.metadata_tag,
    {
        let mut r: Vec<String> = Vec::new();
        let mut i: usize = 0;
        while i < self.metadata_tag.len()
            invariant
                i <= self.metadata_tag@.len(),
                r@ =~= self.metadata_tag@.subrange(0, i as int),
            decreases self.metadata_tag@.len() - i,
        {
            r.push(self.metadata_tag[i].clone());
            i = i + 1;
        }
        proof {
            assert(r@ =~= self.metadata_tag@);
        }
        r
    }

    /// Whether a prefix is a declared idspace.
    pub fn has_idspace(&self, prefix: &str) -> (r: bool)
        ensures
            r == self@.idspaces.contains_key(prefix@),
    {
        assoc_get(&self.idspaces, prefix).is_some()
    }

    /// Whether the relation IRI was declared class-level by its typedef.
    pub fn is_class_level(&self, rid: &String) -> (r: bool)
        ensures
            r == self@.class_level.contains(rid@),
    {
        str_set_contains(&self.class_level, rid.as_str())
    }

    /// Whether the relation IRI was declared a metadata tag by its typedef.
    pub fn is_metadata_tag(&self, rid: &String) -> (r: bool)
        ensures
            r == self@.metadata_tag.contains(rid@),
    {
        str_set_contains(&self.metadata_tag, rid.as_str())
    }
}

// ---------------------------------------------------------------------------
// Context construction
// ---------------------------------------------------------------------------

/// Whether a text reads as one whole IRI under the OBO grammar. The
/// verdict depends on the characters alone.
pub uninterp spec fn iri_ok(s: Seq<char>) -> bool;

/// Relies on `fastobo::ast::Url::new`: it accepts exactly the strings its
/// IRI grammar rule matches in full, and rejects the rest.
#[verifier::external_body]
fn parses_as_iri(s: &str) -> (r: bool)
    ensures
        r == iri_ok(s@),
{
    fastobo::ast::Url::new(s).is_ok()
}

/// How many `ontology` clauses a header holds.
pub open spec fn ontology_count(h: Seq<HeaderClause>) -> nat
    decreases h.len(),
{
    if h.len() == 0 {
        0
    } else {
        ontology_count(h.drop_last()) + (if h.last() is Ontology {
            1nat
        } else {
            0nat
        })
    }
}

proof fn lemma_ontology_count_mono(h: Seq<HeaderClause>, i: int)
    requires
        0 <= i <= h.len(),
    ensures
        ontology_count(h.subrange(0, i)) <= ontology_count(h),
    decreases h.len() - i,
{
    if i < h.len() {
        let h1 = h.subrange(0, i + 1);
        assert(h1.drop_last() =~= h.subrange(0, i));
        lemma_ontology_count_mono(h, i + 1);
    } else {
        assert(h.subrange(0, i) =~= h);
    }
}

/// The raw (unescaped) value of the first `ontology` clause.
pub open spec fn first_ontology_raw(h: Seq<HeaderClause>) -> Seq<char>
    decreases h.len(),
{
    if h.len() == 0 {
        Seq::empty()
    } else {
        match h[0] {
            HeaderClause::Ontology(v) => v@,
            _ => first_ontology_raw(h.drop_first()),
        }
    }
}

/// The ontology name as the mapping writes it: the serialized (escaped)
/// form of the first `ontology` clause value.
pub open spec fn ontology_name(h: Seq<HeaderClause>) -> Seq<char> {
    unquoted_escape(first_ontology_raw(h))
}

proof fn lemma_first_ontology_at(h: Seq<HeaderClause>, i: int, v: String)
    requires
        0 <= i < h.len(),
        h[i] == HeaderClause::Ontology(v),
        forall|j: int| 0 <= j < i ==> !(#[trigger] h[j] is Ontology),
    ensures
        first_ontology_raw(h) == v@,
    decreases i,
{
    if i == 0 {
    } else {
        let t = h.drop_first();
        assert(t[i - 1] == h[i]);
        assert(forall|j: int| 0 <= j < i - 1 ==> t[j] == h[j + 1]);
        lemma_first_ontology_at(t, i - 1, v);
    }
}

/// The three idspaces every document starts with: `BFO`, `RO` and `xsd`.
pub open spec fn seed_idspaces() -> Map<Seq<char>, Seq<char>> {
    Map::<Seq<char>, Seq<char>>::empty().insert("BFO"@, uri_obo() + "BFO_"@).insert(
        "RO"@,
        uri_obo() + "RO"@,
    ).insert("xsd"@, crate::constants::uri_xsd())
}

/// The idspace table after the header: the seed table, overridden by each
/// `idspace` clause in order.
pub open spec fn header_idspaces(h: Seq<HeaderClause>) -> Map<Seq<char>, Seq<char>>
    decreases h.len(),
{
    if h.len() == 0 {
        seed_idspaces()
    } else {
        match h.last() {
            HeaderClause::Idspace(p, u, _) => header_idspaces(h.drop_last()).insert(p@, u@),
            _ => header_idspaces(h.drop_last()),
        }
    }
}

/// The first prefixed or URL cross-reference among a typedef's clauses.
pub open spec fn first_xref_alias(lines: Seq<crate::ast::Line<TypedefClause>>) -> Option<Ident>
    decreases lines.len(),
{
    if lines.len() == 0 {
        None
    } else {
        match lines[0].clause {
            TypedefClause::Xref(x) => match x.id {
                Ident::Prefixed { .. } => Some(x.id),
                Ident::Url { .. } => Some(x.id),
                _ => first_xref_alias(lines.drop_first()),
            },
            _ => first_xref_alias(lines.drop_first()),
        }
    }
}

/// The canonical identifier an unprefixed typedef is aliased to, if any:
/// its first prefixed or URL cross-reference. This is the first-match
/// heuristic; the OBO 1.4 priority order over multiple candidates is not
/// applied.
pub open spec fn typedef_shorthand(f: TypedefFrame) -> Option<Ident> {
    if f.id is Unprefixed {
        first_xref_alias(f.lines@)
    } else {
        None
    }
}

/// The alias table gathered from all typedef frames, in document order.
pub open spec fn doc_shorthands(es: Seq<EntityFrame>) -> Map<Seq<char>, IdentView>
    decreases es.len(),
{
    if es.len() == 0 {
        Map::empty()
    } else {
        let m = doc_shorthands(es.drop_last());
        match es.last() {
            EntityFrame::Typedef(f) => match f.id {
                Ident::Unprefixed { local } => match typedef_shorthand(f) {
                    Some(x) => m.insert(local@, x@),
                    None => m,
                },
                _ => m,
            },
            _ => m,
        }
    }
}

/// Whether a typedef frame carries the given boolean clause set to true.
pub open spec fn typedef_is_metadata_tag(f: TypedefFrame) -> bool {
    exists|i: int|
        0 <= i < f.lines@.len() && #[trigger] f.lines@[i].clause == TypedefClause::IsMetadataTag(
            true,
        )
}

pub open spec fn typedef_is_class_level(f: TypedefFrame) -> bool {
    exists|i: int|
        0 <= i < f.lines@.len() && #[trigger] f.lines@[i].clause == TypedefClause::IsClassLevel(
            true,
        )
}

/// The IRIs of the typedefs declared class-level, resolved against the
/// idspace table and ontology IRI.
pub open spec fn class_level_set(
    es: Seq<EntityFrame>,
    idspaces: Map<Seq<char>, Seq<char>>,
    onto: Seq<char>,
) -> Set<Seq<char>>
    decreases es.len(),
{
    if es.len() == 0 {
        Set::empty()
    } else {
        let m = class_level_set(es.drop_last(), idspaces, onto);
        match es.last() {
            EntityFrame::Typedef(f) => if typedef_is_class_level(f) {
                m.insert(resolve_parts(idspaces, onto, f.id@))
            } else {
                m
            },
            _ => m,
        }
    }
}

/// The IRIs of the typedefs declared metadata tags.
pub open spec fn metadata_tag_set(
    es: Seq<EntityFrame>,
    idspaces: Map<Seq<char>, Seq<char>>,
    onto: Seq<char>,
) -> Set<Seq<char>>
    decreases es.len(),
{
    if es.len() == 0 {
        Set::empty()
    } else {
        let m = metadata_tag_set(es.drop_last(), idspaces, onto);
        match es.last() {
            EntityFrame::Typedef(f) => if typedef_is_metadata_tag(f) {
                m.insert(resolve_parts(idspaces, onto, f.id@))
            } else {
                m
            },
            _ => m,
        }
    }
}

/// The IRI the `ontology` header clause composes: the OBO base followed by
/// the clause's serialized value.
pub open spec fn composed_ontology_iri(h: Seq<HeaderClause>) -> Seq<char> {
    uri_obo() + ontology_name(h)
}

/// The error context construction raises: a missing or repeated `ontology`
/// clause, or a value that does not compose into a valid IRI.
pub open spec fn context_error(h: Seq<HeaderClause>) -> ErrorView {
    if ontology_count(h) == 0 {
        ErrorView::MissingClause { name: "ontology"@ }
    } else if ontology_count(h) >= 2 {
        ErrorView::DuplicateClauses { name: "ontology"@ }
    } else {
        ErrorView::Syntax { value: composed_ontology_iri(h) }
    }
}

/// The context a well-formed document yields: the header idspaces, the
/// ontology IRI derived from the `ontology` clause, the alias table, and
/// the class-level and metadata-tag scans.
pub open spec fn doc_context(doc: OboDoc) -> CtxView {
    let onto = uri_obo() + ontology_name(doc.header@);
    let ids = header_idspaces(doc.header@);
    CtxView {
        idspaces: ids,
        ontology_iri: onto,
        current_frame: onto,
        in_annotation: false,
        shorthands: doc_shorthands(doc.entities@),
        class_level: class_level_set(doc.entities@, ids, onto),
        metadata_tag: metadata_tag_set(doc.entities@, ids, onto),
    }
}

impl Context {
    /// The identifier an unprefixed typedef is aliased to: its first
    /// prefixed or URL cross-reference. Returns nothing for a prefixed or
    /// URL typedef identifier.
    pub fn find_shorthand<'a>(frame: &'a TypedefFrame) -> (r: Option<&'a Ident>)
        ensures
            match r {
                Some(x) => typedef_shorthand(*frame) == Some(*x),
                None => typedef_shorthand(*frame) is None,
            },
    {
        let unprefixed = match &frame.id {
            Ident::Unprefixed { .. } => true,
            _ => false,
        };
        if !unprefixed {
            return None;
        }
        let ghost lines = frame.lines@;
        proof {
            assert(lines.subrange(0, lines.len() as int) =~= lines);
        }
        let mut i: usize = 0;
        while i < frame.lines.len()
            invariant
                i <= lines.len(),
                lines == frame.lines@,
                frame.id is Unprefixed,
                first_xref_alias(lines.subrange(i as int, lines.len() as int))
                    == first_xref_alias(lines),
            decreases lines.len() - i,
        {
            let ghost rest = lines.subrange(i as int, lines.len() as int);
            proof {
                assert(rest[0] == lines[i as int]);
                assert(rest.drop_first() =~= lines.subrange(i + 1int, lines.len() as int));
            }
            if let TypedefClause::Xref(x) = &frame.lines[i].clause {
                match &x.id {
                    Ident::Prefixed { .. } => {
                        return Some(&x.id);
                    },
                    Ident::Url { .. } => {
                        return Some(&x.id);
                    },
                    _ => {},
                }
            }
            i = i + 1;
        }
        proof {
            assert(lines.subrange(i as int, lines.len() as int).len() == 0);
        }
        None
    }

    /// Build the conversion context from a whole document: seed and collect
    /// the idspaces, derive the ontology IRI from the mandatory, singular
    /// `ontology` clause, record the typedef aliases, and scan the typedef
    /// frames for class-level and metadata-tag declarations. The scan runs
    /// to completion before the context is handed out, so term translation
    /// can never start against a half-built table.
    pub fn from_obodoc(doc: &OboDoc) -> (r: Result<Context, Error>)
        ensures
            r is Ok <==> ontology_count(doc.header@) == 1 && iri_ok(
                composed_ontology_iri(doc.header@),
            ),
            r matches Ok(ctx) ==> ctx@ == doc_context(*doc),
            r matches Err(e) ==> e@ == context_error(doc.header@),
    {
        let ghost header = doc.header@;
        let mut idspaces: Vec<(String, String)> = Vec::new();
        idspaces.push((String::from_str("BFO"), concat2(uri_obo_str(), "BFO_")));
        let ghost v1 = idspaces@;
        proof {
            assert(v1.drop_last() =~= Seq::<(String, String)>::empty());
            assert(assoc_map(Seq::<(String, String)>::empty()) == Map::<
                Seq<char>,
                Seq<char>,
            >::empty());
            assert(v1.last().0@ == "BFO"@);
            assert(v1.last().1@ == uri_obo() + "BFO_"@);
            assert(assoc_map(v1) == Map::<Seq<char>, Seq<char>>::empty().insert(
                "BFO"@,
                uri_obo() + "BFO_"@,
            ));
        }
        idspaces.push((String::from_str("RO"), concat2(uri_obo_str(), "RO")));
        let ghost v2 = idspaces@;
        proof {
            assert(v2.drop_last() =~= v1);
            assert(assoc_map(v2) == assoc_map(v1).insert("RO"@, uri_obo() + "RO"@));
        }
        idspaces.push((String::from_str("xsd"), String::from_str(uri_xsd_str())));
        proof {
            assert(idspaces@.drop_last() =~= v2);
            assert(assoc_map(idspaces@) == assoc_map(v2).insert(
                "xsd"@,
                crate::constants::uri_xsd(),
            ));
            assert(assoc_map(idspaces@) == seed_idspaces());
        }

        let mut ontology: Option<String> = None;
        let mut i: usize = 0;
        while i < doc.header.len()
            invariant
                header == doc.header@,
                i <= header.len(),
                assoc_map(idspaces@) == header_idspaces(header.subrange(0, i as int)),
                match ontology {
                    Some(s) => ontology_count(header.subrange(0, i as int)) == 1 && s@
                        == ontology_name(header),
                    None => ontology_count(header.subrange(0, i as int)) == 0,
                },
            decreases header.len() - i,
        {
            let ghost prefix = header.subrange(0, i as int);
            let ghost prefix1 = header.subrange(0, i + 1int);
            proof {
                assert(prefix1.drop_last() =~= prefix);
                assert(prefix1.last() == header[i as int]);
            }
            match &doc.header[i] {
                HeaderClause::Idspace(p, u, _) => {
                    let ghost before = idspaces@;
                    idspaces.push((p.clone(), u.clone()));
                    proof {
                        assert(idspaces@.drop_last() =~= before);
                    }
                },
                HeaderClause::Ontology(v) => {
                    if ontology.is_some() {
                        proof {
                            assert(ontology_count(prefix1) == 2);
                            lemma_ontology_count_mono(header, i + 1int);
                        }
                        return Err(
                            Error::DuplicateClauses { name: String::from_str("ontology") },
                        );
                    }
                    proof {
                        assert(forall|j: int|
                            0 <= j < i ==> !(#[trigger] header[j] is Ontology)) by {
                            if exists|j: int| 0 <= j < i && #[trigger] header[j] is Ontology {
                                let j = choose|j: int|
                                    0 <= j < i && #[trigger] header[j] is Ontology;
                                let pj = header.subrange(0, j + 1int);
                                assert(pj.drop_last() =~= header.subrange(0, j));
                                assert(pj.last() == header[j]);
                                assert(ontology_count(pj) >= 1);
                                lemma_ontology_count_mono(prefix, j + 1int);
                                assert(prefix.subrange(0, j + 1int) =~= pj);
                            }
                        }
                        lemma_first_ontology_at(header, i as int, *v);
                    }
                    ontology = Some(escape_unquoted(v.as_str()));
                },
                _ => {},
            }
            i = i + 1;
        }
        proof {
            assert(header.subrange(0, header.len() as int) =~= header);
        }

        let name = match ontology {
            Some(n) => n,
            None => {
                return Err(Error::MissingClause { name: String::from_str("ontology") });
            },
        };
        let ontology_iri = concat2(uri_obo_str(), name.as_str());
        if !parses_as_iri(ontology_iri.as_str()) {
            return Err(Error::Syntax { value: ontology_iri });
        }
        let current_frame = ontology_iri.clone();

        let ghost entities = doc.entities@;
        let mut shorthands: Vec<(String, Ident)> = Vec::new();
        let mut k: usize = 0;
        while k < doc.entities.len()
            invariant
                entities == doc.entities@,
                k <= entities.len(),
                shorthand_map(shorthands@) == doc_shorthands(entities.subrange(0, k as int)),
            decreases entities.len() - k,
        {
            let ghost prefix = entities.subrange(0, k as int);
            let ghost prefix1 = entities.subrange(0, k + 1int);
            proof {
                assert(prefix1.drop_last() =~= prefix);
                assert(prefix1.last() == entities[k as int]);
            }
            if let EntityFrame::Typedef(frame) = &doc.entities[k] {
                if let Ident::Unprefixed { local } = &frame.id {
                    match Context::find_shorthand(frame) {
                        Some(alias) => {
                            let ghost before = shorthands@;
                            shorthands.push((local.clone(), alias.duplicate()));
                            proof {
                                assert(shorthands@.drop_last() =~= before);
                            }
                        },
                        None => {},
                    }
                }
            }
            k = k + 1;
        }
        proof {
            assert(entities.subrange(0, entities.len() as int) =~= entities);
        }

        let mut ctx = Context {
            idspaces,
            ontology_iri,
            current_frame,
            in_annotation: false,
            shorthands,
            class_level: Vec::new(),
            metadata_tag: Vec::new(),
        };
        let ghost ids = ctx@.idspaces;
        let ghost onto = ctx@.ontology_iri;
        proof {
            assert(str_set(ctx.class_level@) =~= Set::<Seq<char>>::empty());
            assert(str_set(ctx.metadata_tag@) =~= Set::<Seq<char>>::empty());
        }

        let mut k: usize = 0;
        while k < doc.entities.len()
            invariant
                entities == doc.entities@,
                k <= entities.len(),
                ctx@.idspaces == ids,
                ctx@.ontology_iri == onto,
                ctx@.current_frame == onto,
                ctx@.in_annotation == false,
                ctx@.shorthands == doc_shorthands(entities),
                ctx@.class_level == class_level_set(entities.subrange(0, k as int), ids, onto),
                ctx@.metadata_tag == metadata_tag_set(entities.subrange(0, k as int), ids, onto),
            decreases entities.len() - k,
        {
            let ghost prefix = entities.subrange(0, k as int);
            let ghost prefix1 = entities.subrange(0, k + 1int);
            proof {
                assert(prefix1.drop_last() =~= prefix);
                assert(prefix1.last() == entities[k as int]);
            }
            if let EntityFrame::Typedef(frame) = &doc.entities[k] {
                let mut is_meta = false;
                let mut is_cl = false;
                let mut j: usize = 0;
                while j < frame.lines.len()
                    invariant
                        j <= frame.lines@.len(),
                        is_meta == exists|t: int|
                            0 <= t < j && #[trigger] frame.lines@[t].clause
                                == TypedefClause::IsMetadataTag(true),
                        is_cl == exists|t: int|
                            0 <= t < j && #[trigger] frame.lines@[t].clause
                                == TypedefClause::IsClassLevel(true),
                    decreases frame.lines@.len() - j,
                {
                    match &frame.lines[j].clause {
                        TypedefClause::IsMetadataTag(true) => {
                            is_meta = true;
                        },
                        TypedefClause::IsClassLevel(true) => {
                            is_cl = true;
                        },
                        _ => {},
                    }
                    j = j + 1;
                }
                proof {
                    assert(is_meta == typedef_is_metadata_tag(*frame));
                    assert(is_cl == typedef_is_class_level(*frame));
                }
                if is_meta || is_cl {
                    let iri = ctx.resolve(&frame.id);
                    if is_cl {
                        let ghost before = ctx.class_level@;
                        ctx.class_level.push(iri.clone());
                        proof {
                            assert(ctx.class_level@.drop_last() =~= before);
                        }
                    }
                    if is_meta {
                        let ghost before = ctx.metadata_tag@;
                        ctx.metadata_tag.push(iri);
                        proof {
                            assert(ctx.metadata_tag@.drop_last() =~= before);
                        }
                    }
                }
            }
            k = k + 1;
        }
        proof {
            assert(entities.subrange(0, entities.len() as int) =~= entities);
            reveal_strlit("ontology");
        }
        Ok(ctx)
    }
}

} // verus!
