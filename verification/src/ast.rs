//! The OBO abstract syntax tree that the translation consumes: identifiers,
//! dates, qualifiers, cross-references, synonyms, property values, clauses
//! and frames. The documents are assumed already parsed and macro-expanded;
//! string values are held unescaped, and the serialized (escaped) forms are
//! recovered by the functions of this module where the mapping asks for the
//! original text of a value.

use vstd::prelude::*;

use crate::strings::dec_padded;
use crate::strings::escape_ident;
use crate::strings::ident_escape;
use crate::strings::push_dec_padded;

verus! {

/// An OBO identifier: prefixed (`GO:0000001`), unprefixed (`part_of`) or a
/// bare URL.
#[derive(Debug, Clone, PartialEq, Eq)]
pub enum Ident {
    Prefixed { prefix: String, local: String },
    Unprefixed { local: String },
    Url { url: String },
}

pub enum IdentView {
    Prefixed { prefix: Seq<char>, local: Seq<char> },
    Unprefixed { local: Seq<char> },
    Url { url: Seq<char> },
}

impl View for Ident {
    type V = IdentView;

    open spec fn view(&self) -> IdentView {
        match self {
            Ident::Prefixed { prefix, local } => IdentView::Prefixed {
                prefix: prefix@,
                local: local@,
            },
            Ident::Unprefixed { local } => IdentView::Unprefixed { local: local@ },
            Ident::Url { url } => IdentView::Url { url: url@ },
        }
    }
}

/// The serialized form of an identifier, as the OBO format writes it:
/// components escaped, a prefixed identifier joined by a colon, a URL
/// written as it stands.
pub open spec fn id_serialized(id: IdentView) -> Seq<char> {
    match id {
        IdentView::Prefixed { prefix, local } => ident_escape(prefix) + seq![':'] + ident_escape(
            local,
        ),
        IdentView::Unprefixed { local } => ident_escape(local),
        IdentView::Url { url } => url,
    }
}

impl Ident {
    /// An equal copy.
    pub fn duplicate(&self) -> (r: Ident)
        ensures
            r == self,
    {
        match self {
            Ident::Prefixed { prefix, local } => Ident::Prefixed {
                prefix: prefix.clone(),
                local: local.clone(),
            },
            Ident::Unprefixed { local } => Ident::Unprefixed { local: local.clone() },
            Ident::Url { url } => Ident::Url { url: url.clone() },
        }
    }

    /// Write the identifier in its serialized OBO form.
    pub fn serialized(&self) -> (r: String)
        ensures
            r@ == id_serialized(self@),
    {
        match self {
            Ident::Prefixed { prefix, local } => {
                let mut s = escape_ident(prefix.as_str());
                s.append(":");
                proof {
                    reveal_strlit(":");
                    assert(":"@ =~= seq![':']);
                }
                let esc_local = escape_ident(local.as_str());
                s.append(esc_local.as_str());
                proof {
                    assert(s@ =~= ident_escape(prefix@) + seq![':'] + ident_escape(local@));
                }
                s
            },
            Ident::Unprefixed { local } => escape_ident(local.as_str()),
            Ident::Url { url } => url.clone(),
        }
    }
}

/// The scope of a synonym.
#[derive(Debug, Clone, Copy, PartialEq, Eq, Structural)]
pub enum SynonymScope {
    Broad,
    Exact,
    Narrow,
    Related,
}

/// A key/value modifier attached to a clause instance.
#[derive(Debug, Clone, PartialEq, Eq)]
pub struct Qualifier {
    pub key: Ident,
    pub value: String,
}

/// A cross-reference: an identifier with an optional description.
#[derive(Debug, Clone, PartialEq, Eq)]
pub struct Xref {
    pub id: Ident,
    pub description: Option<String>,
}

/// A synonym clause value: text, scope, optional synonym type, and
/// cross-references.
#[derive(Debug, Clone, PartialEq, Eq)]
pub struct Synonym {
    pub description: String,
    pub scope: SynonymScope,
    pub ty: Option<Ident>,
    pub xrefs: Vec<Xref>,
}

/// A definition clause value: text plus supporting cross-references.
#[derive(Debug, Clone, PartialEq, Eq)]
pub struct Definition {
    pub text: String,
    pub xrefs: Vec<Xref>,
}

/// A property value: a relation applied to a resource or to a typed literal.
#[derive(Debug, Clone, PartialEq, Eq)]
pub enum PropertyValue {
    Resource { property: Ident, target: Ident },
    Literal { property: Ident, literal: String, datatype: Ident },
}

/// An import header clause value: a URL, or an abbreviated ontology name.
#[derive(Debug, Clone, PartialEq, Eq)]
pub enum Import {
    Abbreviated(Ident),
    Url(String),
}

// ---------------------------------------------------------------------------
// Dates
// ---------------------------------------------------------------------------

/// The day-month-year date of the `date` header clause.
#[derive(Debug, Clone, Copy, PartialEq, Eq, Structural)]
pub struct NaiveDateTime {
    pub year: u16,
    pub month: u8,
    pub day: u8,
    pub hour: u8,
    pub minute: u8,
}

/// An ISO-8601 date.
#[derive(Debug, Clone, Copy, PartialEq, Eq, Structural)]
pub struct IsoDate {
    pub year: u16,
    pub month: u8,
    pub day: u8,
}

/// An ISO-8601 timezone.
#[derive(Debug, Clone, Copy, PartialEq, Eq, Structural)]
pub enum IsoTimezone {
    Utc,
    Plus(u8, u8),
    Minus(u8, u8),
}

/// An ISO-8601 time of day. Fractional seconds are not kept: the OBO
/// creation dates this engine renders are written to whole seconds.
#[derive(Debug, Clone, Copy, PartialEq, Eq, Structural)]
pub struct IsoTime {
    pub hour: u8,
    pub minute: u8,
    pub second: u8,
    pub timezone: Option<IsoTimezone>,
}

/// A full ISO-8601 datetime.
#[derive(Debug, Clone, Copy, PartialEq, Eq, Structural)]
pub struct IsoDateTime {
    pub date: IsoDate,
    pub time: IsoTime,
}

/// The value of a `creation_date` clause: a date, or a full datetime.
#[derive(Debug, Clone, Copy, PartialEq, Eq, Structural)]
pub enum CreationDate {
    Date(IsoDate),
    DateTime(IsoDateTime),
}

/// The `xsd:date` rendering of a date: `YYYY-MM-DD`, zero-padded.
pub open spec fn xsd_date_chars(d: IsoDate) -> Seq<char> {
    dec_padded(d.year as nat, 4) + seq!['-'] + dec_padded(d.month as nat, 2) + seq!['-']
        + dec_padded(d.day as nat, 2)
}

/// The `xsd:dateTime` rendering of a naive header date, with seconds fixed
/// to zero: `YYYY-MM-DDThh:mm:00`.
pub open spec fn xsd_naive_datetime_chars(d: NaiveDateTime) -> Seq<char> {
    dec_padded(d.year as nat, 4) + seq!['-'] + dec_padded(d.month as nat, 2) + seq!['-']
        + dec_padded(d.day as nat, 2) + seq!['T'] + dec_padded(d.hour as nat, 2) + seq![':']
        + dec_padded(d.minute as nat, 2) + seq![':', '0', '0']
}

/// The rendering of an ISO timezone: `Z`, or a signed hour-minute offset.
pub open spec fn timezone_chars(tz: IsoTimezone) -> Seq<char> {
    match tz {
        IsoTimezone::Utc => seq!['Z'],
        IsoTimezone::Plus(hh, mm) => seq!['+'] + dec_padded(hh as nat, 2) + seq![':'] + dec_padded(
            mm as nat,
            2,
        ),
        IsoTimezone::Minus(hh, mm) => seq!['-'] + dec_padded(hh as nat, 2) + seq![':']
            + dec_padded(mm as nat, 2),
    }
}

/// The `xsd:dateTime` rendering of a full ISO datetime:
/// `YYYY-MM-DDThh:mm:ss` followed by the timezone, if one is present.
pub open spec fn xsd_iso_datetime_chars(d: IsoDateTime) -> Seq<char> {
    xsd_date_chars(d.date) + seq!['T'] + dec_padded(d.time.hour as nat, 2) + seq![':']
        + dec_padded(d.time.minute as nat, 2) + seq![':'] + dec_padded(d.time.second as nat, 2) + (
    match d.time.timezone {
        Some(tz) => timezone_chars(tz),
        None => Seq::empty(),
    })
}

impl IsoDate {
    /// Write the date in `xsd:date` form.
    pub fn to_xsd_date(&self) -> (r: String)
        ensures
            r@ == xsd_date_chars(*self),
    {
        let mut s = String::new();
        push_dec_padded(&mut s, self.year as u32, 4);
        s.append("-");
        push_dec_padded(&mut s, self.month as u32, 2);
        s.append("-");
        push_dec_padded(&mut s, self.day as u32, 2);
        proof {
            reveal_strlit("-");
            assert("-"@ =~= seq!['-']);
            assert(s@ =~= xsd_date_chars(*self));
        }
        s
    }
}

impl NaiveDateTime {
    /// Write the header date in `xsd:dateTime` form, with zero seconds.
    pub fn to_xsd_datetime(&self) -> (r: String)
        ensures
            r@ == xsd_naive_datetime_chars(*self),
    {
        let mut s = String::new();
        push_dec_padded(&mut s, self.year as u32, 4);
        s.append("-");
        push_dec_padded(&mut s, self.month as u32, 2);
        s.append("-");
        push_dec_padded(&mut s, self.day as u32, 2);
        s.append("T");
        push_dec_padded(&mut s, self.hour as u32, 2);
        s.append(":");
        push_dec_padded(&mut s, self.minute as u32, 2);
        s.append(":00");
        proof {
            reveal_strlit("-");
            reveal_strlit("T");
            reveal_strlit(":");
            reveal_strlit(":00");
            assert("-"@ =~= seq!['-']);
            assert("T"@ =~= seq!['T']);
            assert(":"@ =~= seq![':']);
            assert(":00"@ =~= seq![':', '0', '0']);
            assert(s@ =~= xsd_naive_datetime_chars(*self));
        }
        s
    }
}

impl IsoDateTime {
    /// Write the datetime in `xsd:dateTime` form.
    pub fn to_xsd_datetime(&self) -> (r: String)
        ensures
            r@ == xsd_iso_datetime_chars(*self),
    {
        let mut s = self.date.to_xsd_date();
        s.append("T");
        push_dec_padded(&mut s, self.time.hour as u32, 2);
        s.append(":");
        push_dec_padded(&mut s, self.time.minute as u32, 2);
        s.append(":");
        push_dec_padded(&mut s, self.time.second as u32, 2);
        proof {
            reveal_strlit("T");
            reveal_strlit(":");
            assert("T"@ =~= seq!['T']);
            assert(":"@ =~= seq![':']);
        }
        match self.time.timezone {
            None => {
                proof {
                    assert(s@ =~= xsd_iso_datetime_chars(*self));
                }
                s
            },
            Some(IsoTimezone::Utc) => {
                s.append("Z");
                proof {
                    reveal_strlit("Z");
                    assert("Z"@ =~= seq!['Z']);
                    assert(s@ =~= xsd_iso_datetime_chars(*self));
                }
                s
            },
            Some(IsoTimezone::Plus(hh, mm)) => {
                s.append("+");
                push_dec_padded(&mut s, hh as u32, 2);
                s.append(":");
                push_dec_padded(&mut s, mm as u32, 2);
                proof {
                    reveal_strlit("+");
                    assert("+"@ =~= seq!['+']);
                    assert(s@ =~= xsd_iso_datetime_chars(*self));
                }
                s
            },
            Some(IsoTimezone::Minus(hh, mm)) => {
                s.append("-");
                push_dec_padded(&mut s, hh as u32, 2);
                s.append(":");
                push_dec_padded(&mut s, mm as u32, 2);
                proof {
                    reveal_strlit("-");
                    assert("-"@ =~= seq!['-']);
                    assert(s@ =~= xsd_iso_datetime_chars(*self));
                }
                s
            },
        }
    }
}

// ---------------------------------------------------------------------------
// Clauses
// ---------------------------------------------------------------------------

/// A header clause. The six `treat-xrefs` macro clauses are carried so the
/// dispatch over header clauses stays exhaustive, but they produce nothing:
/// macro expansion must have happened before translation.
#[derive(Debug, Clone, PartialEq, Eq)]
pub enum HeaderClause {
    FormatVersion(String),
    DataVersion(String),
    Date(NaiveDateTime),
    SavedBy(String),
    AutoGeneratedBy(String),
    Import(Import),
    Subsetdef(Ident, String),
    SynonymTypedef(Ident, String, Option<SynonymScope>),
    DefaultNamespace(Ident),
    NamespaceIdRule(String),
    Idspace(String, String, Option<String>),
    TreatXrefsAsEquivalent(String),
    TreatXrefsAsGenusDifferentia(String, Ident, Ident),
    TreatXrefsAsReverseGenusDifferentia(String, Ident, Ident),
    TreatXrefsAsRelationship(String, Ident),
    TreatXrefsAsIsA(String),
    TreatXrefsAsHasSubclass(String),
    PropertyValue(PropertyValue),
    Remark(String),
    Ontology(String),
    OwlAxioms(String),
    Unreserved(String, String),
}

/// A clause of a term frame.
#[derive(Debug, Clone, PartialEq, Eq)]
pub enum TermClause {
    IsAnonymous(bool),
    Name(String),
    Namespace(Ident),
    AltId(Ident),
    Def(Definition),
    Comment(String),
    Subset(Ident),
    Synonym(Synonym),
    Xref(Xref),
    Builtin(bool),
    PropertyValue(PropertyValue),
    IsA(Ident),
    IntersectionOf(Option<Ident>, Ident),
    UnionOf(Ident),
    EquivalentTo(Ident),
    DisjointFrom(Ident),
    Relationship(Ident, Ident),
    IsObsolete(bool),
    ReplacedBy(Ident),
    Consider(Ident),
    CreatedBy(String),
    CreationDate(CreationDate),
}

/// A clause of a typedef frame.
#[derive(Debug, Clone, PartialEq, Eq)]
pub enum TypedefClause {
    IsAnonymous(bool),
    Name(String),
    Namespace(Ident),
    AltId(Ident),
    Def(Definition),
    Comment(String),
    Subset(Ident),
    Synonym(Synonym),
    Xref(Xref),
    PropertyValue(PropertyValue),
    Domain(Ident),
    Range(Ident),
    Builtin(bool),
    HoldsOverChain(Ident, Ident),
    IsAntiSymmetric(bool),
    IsCyclic(bool),
    IsReflexive(bool),
    IsSymmetric(bool),
    IsAsymmetric(bool),
    IsTransitive(bool),
    IsFunctional(bool),
    IsInverseFunctional(bool),
    IsA(Ident),
    IntersectionOf(Ident),
    UnionOf(Ident),
    EquivalentTo(Ident),
    DisjointFrom(Ident),
    InverseOf(Ident),
    TransitiveOver(Ident),
    EquivalentToChain(Ident, Ident),
    DisjointOver(Ident),
    Relationship(Ident, Ident),
    IsObsolete(bool),
    ReplacedBy(Ident),
    Consider(Ident),
    CreatedBy(String),
    CreationDate(CreationDate),
    ExpandAssertionTo(String, Vec<Xref>),
    ExpandExpressionTo(String, Vec<Xref>),
    IsMetadataTag(bool),
    IsClassLevel(bool),
}

/// A clause together with the qualifiers attached to its line. An absent
/// qualifier block is an empty list.
#[derive(Debug, Clone, PartialEq, Eq)]
pub struct Line<C> {
    pub clause: C,
    pub qualifiers: Vec<Qualifier>,
}

/// A term frame: a class identifier and its clauses, in document order.
#[derive(Debug, Clone, PartialEq, Eq)]
pub struct TermFrame {
    pub id: Ident,
    pub lines: Vec<Line<TermClause>>,
}

/// A typedef frame: a relation identifier and its clauses, in document
/// order.
#[derive(Debug, Clone, PartialEq, Eq)]
pub struct TypedefFrame {
    pub id: Ident,
    pub lines: Vec<Line<TypedefClause>>,
}

/// An instance frame. Instances have no OWL mapping and are dropped by the
/// translation, so only the identifier is kept.
#[derive(Debug, Clone, PartialEq, Eq)]
pub struct InstanceFrame {
    pub id: Ident,
}

/// An entity frame of the document.
#[derive(Debug, Clone, PartialEq, Eq)]
pub enum EntityFrame {
    Term(TermFrame),
    Typedef(TypedefFrame),
    Instance(InstanceFrame),
}

impl EntityFrame {
    /// The identifier of the framed entity.
    pub fn id(&self) -> (r: &Ident)
        ensures
            r == self.spec_id(),
    {
        match self {
            EntityFrame::Term(f) => &f.id,
            EntityFrame::Typedef(f) => &f.id,
            EntityFrame::Instance(f) => &f.id,
        }
    }

    pub open spec fn spec_id(&self) -> Ident {
        match self {
            EntityFrame::Term(f) => f.id,
            EntityFrame::Typedef(f) => f.id,
            EntityFrame::Instance(f) => f.id,
        }
    }
}

/// A parsed OBO document: the header clauses in order, and the entity
/// frames in document order.
#[derive(Debug, Clone, PartialEq, Eq)]
pub struct OboDoc {
    pub header: Vec<HeaderClause>,
    pub entities: Vec<EntityFrame>,
}

impl OboDoc {
    /// An empty document.
    pub fn new() -> (r: OboDoc)
        ensures
            r.header@ == Seq::<HeaderClause>::empty(),
            r.entities@ == Seq::<EntityFrame>::empty(),
    {
        let r = OboDoc { header: Vec::new(), entities: Vec::new() };
        proof {
            assert(r.header@ =~= Seq::<HeaderClause>::empty());
            assert(r.entities@ =~= Seq::<EntityFrame>::empty());
        }
        r
    }
}

} // verus!
