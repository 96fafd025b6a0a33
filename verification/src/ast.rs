//! The data model: documents, schema declarations, values, and the error
//! type, together with their mathematical views.
//!
//! Ordered field maps are kept as vectors of `(name, entry)` pairs, in
//! insertion order; a parsed object never holds the same key twice because
//! the parser updates the earlier pair in place.  Schema declarations are
//! kept in declaration order and looked up back-to-front, so a later
//! declaration with the same name silently wins, as the language demands.
use vstd::prelude::*;

verus! {

// ---------------------------------------------------------------------------
// Mathematical views (ghost): the same shapes over `Seq` and `int`.
// ---------------------------------------------------------------------------
pub ghost enum TypeS {
    StrT,
    IntT,
    FloatT,
    BoolT,
    UrlT,
    SocketT,
    PubkeyT,
    ArrT(Box<TypeS>),
    ObjT(Seq<char>),
    EnumT(Seq<char>),
    AnyT,
}

pub ghost struct FieldDefS {
    pub ty: TypeS,
    pub optional: bool,
}

pub ghost enum VariantS {
    UnitV(Seq<char>),
    TupleV(Seq<char>, Seq<TypeS>),
    StructV(Seq<char>, Seq<(Seq<char>, FieldDefS)>),
}

pub ghost struct EnumDefS {
    pub name: Seq<char>,
    pub variants: Seq<VariantS>,
}

pub ghost struct TypeDefS {
    pub name: Seq<char>,
    pub fields: Seq<(Seq<char>, FieldDefS)>,
}

pub ghost enum DataS {
    UnitD,
    TupleD(Seq<ValS>),
    StructD(Seq<(Seq<char>, ValS)>),
}

pub ghost enum ValS {
    StrV(Seq<char>),
    IntV(int),
    FloatV { neg: bool, whole: Seq<char>, frac: Seq<char> },
    BoolV(bool),
    NullV,
    UrlV(Seq<char>),
    SocketV(Seq<char>),
    PubkeyV(Seq<char>),
    ArrV(Seq<ValS>),
    ObjV(Seq<(Seq<char>, ValS)>),
    VariantV { enum_name: Seq<char>, variant: Seq<char>, data: DataS },
}

pub ghost struct DocS {
    pub inclusions: Seq<Seq<char>>,
    pub types: Seq<TypeDefS>,
    pub enums: Seq<EnumDefS>,
    pub root: Seq<(Seq<char>, ValS)>,
}

// ---------------------------------------------------------------------------
// Executable data model.
// ---------------------------------------------------------------------------
/// A declared type expression.
#[derive(Debug, PartialEq)]
pub enum RecType {
    String,
    Int,
    Float,
    Bool,
    Url,
    Socket,
    Pubkey,
    Array(Box<RecType>),
    Object(String),
    Enum(String),
    Any,
}

/// One declared field: its type and whether it may be absent.
#[derive(Debug, PartialEq)]
pub struct FieldDef {
    pub ty: RecType,
    pub optional: bool,
}

/// A `@type` declaration: a name and its ordered fields.
#[derive(Debug, PartialEq)]
pub struct TypeDef {
    pub name: String,
    pub fields: Vec<(String, FieldDef)>,
}

/// One declared alternative of an enum.
#[derive(Debug, PartialEq)]
pub enum EnumVariant {
    Unit(String),
    Tuple(String, Vec<RecType>),
    Struct(String, Vec<(String, FieldDef)>),
}

/// An `@enum` declaration: a name and its ordered variants.
#[derive(Debug, PartialEq)]
pub struct EnumDef {
    pub name: String,
    pub variants: Vec<EnumVariant>,
}

/// A decimal literal, kept as its written parts: an optional leading minus,
/// the digits before the point and the digits after it.
#[derive(Debug, Clone, PartialEq)]
pub struct FloatLit {
    pub neg: bool,
    pub whole: String,
    pub frac: String,
}

/// The payload of an enum-variant value.
#[derive(Debug, PartialEq)]
pub enum EnumVariantData {
    Unit,
    Tuple(Vec<RecValue>),
    Struct(Vec<(String, RecValue)>),
}

/// An object value: ordered fields, unique keys when built by the parser.
#[derive(Debug, PartialEq)]
pub struct RecObject {
    pub fields: Vec<(String, RecValue)>,
}

/// A parsed value.
#[derive(Debug, PartialEq)]
pub enum RecValue {
    String(String),
    Int(i64),
    Float(FloatLit),
    Bool(bool),
    Null,
    Url(String),
    Socket(String),
    Pubkey(String),
    Array(Vec<RecValue>),
    Object(RecObject),
    EnumVariant { enum_name: String, variant: String, data: EnumVariantData },
}

/// A whole parsed document.
#[derive(Debug, PartialEq)]
pub struct RecDocument {
    pub inclusions: Vec<String>,
    pub type_definitions: Vec<TypeDef>,
    pub enum_definitions: Vec<EnumDef>,
    pub root: RecObject,
}

/// Everything that can go wrong while parsing or validating.
#[derive(Debug, Clone, PartialEq)]
pub enum RecError {
    ParseError(String),
    ValidationError(String),
    TypeError { expected: String, actual: String },
    UnknownType(String),
    UnknownEnumVariant { enum_name: String, variant: String },
    InvalidUrl(String),
    InvalidSocket(String),
    InvalidPubkey(String),
    InclusionNotFound(String),
    DuplicateKey(String),
    MissingField(String),
}

// ---------------------------------------------------------------------------
// Views: every executable shape maps to its ghost counterpart.
// ---------------------------------------------------------------------------
pub open spec fn view_type(t: RecType) -> TypeS
    decreases t,
{
    match t {
        RecType::String => TypeS::StrT,
        RecType::Int => TypeS::IntT,
        RecType::Float => TypeS::FloatT,
        RecType::Bool => TypeS::BoolT,
        RecType::Url => TypeS::UrlT,
        RecType::Socket => TypeS::SocketT,
        RecType::Pubkey => TypeS::PubkeyT,
        RecType::Array(inner) => TypeS::ArrT(Box::new(view_type(*inner))),
        RecType::Object(n) => TypeS::ObjT(n@),
        RecType::Enum(n) => TypeS::EnumT(n@),
        RecType::Any => TypeS::AnyT,
    }
}

impl View for RecType {
    type V = TypeS;

    open spec fn view(&self) -> TypeS {
        view_type(*self)
    }
}

pub open spec fn view_types(s: Seq<RecType>) -> Seq<TypeS>
    decreases s,
{
    if s.len() == 0 {
        Seq::empty()
    } else {
        view_types(s.drop_last()).push(view_type(s.last()))
    }
}

impl View for FieldDef {
    type V = FieldDefS;

    open spec fn view(&self) -> FieldDefS {
        FieldDefS { ty: self.ty@, optional: self.optional }
    }
}

pub open spec fn view_field_defs(s: Seq<(String, FieldDef)>) -> Seq<(Seq<char>, FieldDefS)>
    decreases s,
{
    if s.len() == 0 {
        Seq::empty()
    } else {
        view_field_defs(s.drop_last()).push((s.last().0@, s.last().1@))
    }
}

impl View for EnumVariant {
    type V = VariantS;

    open spec fn view(&self) -> VariantS {
        match self {
            EnumVariant::Unit(n) => VariantS::UnitV(n@),
            EnumVariant::Tuple(n, ts) => VariantS::TupleV(n@, view_types(ts@)),
            EnumVariant::Struct(n, fs) => VariantS::StructV(n@, view_field_defs(fs@)),
        }
    }
}

pub open spec fn view_variants(s: Seq<EnumVariant>) -> Seq<VariantS>
    decreases s,
{
    if s.len() == 0 {
        Seq::empty()
    } else {
        view_variants(s.drop_last()).push(s.last()@)
    }
}

impl View for EnumDef {
    type V = EnumDefS;

    open spec fn view(&self) -> EnumDefS {
        EnumDefS { name: self.name@, variants: view_variants(self.variants@) }
    }
}

pub open spec fn view_enum_defs(s: Seq<EnumDef>) -> Seq<EnumDefS>
    decreases s,
{
    if s.len() == 0 {
        Seq::empty()
    } else {
        view_enum_defs(s.drop_last()).push(s.last()@)
    }
}

impl View for TypeDef {
    type V = TypeDefS;

    open spec fn view(&self) -> TypeDefS {
        TypeDefS { name: self.name@, fields: view_field_defs(self.fields@) }
    }
}

pub open spec fn view_type_defs(s: Seq<TypeDef>) -> Seq<TypeDefS>
    decreases s,
{
    if s.len() == 0 {
        Seq::empty()
    } else {
        view_type_defs(s.drop_last()).push(s.last()@)
    }
}

pub open spec fn view_val(v: RecValue) -> ValS
    decreases v,
{
    match v {
        RecValue::String(s) => ValS::StrV(s@),
        RecValue::Int(i) => ValS::IntV(i as int),
        RecValue::Float(f) => ValS::FloatV { neg: f.neg, whole: f.whole@, frac: f.frac@ },
        RecValue::Bool(b) => ValS::BoolV(b),
        RecValue::Null => ValS::NullV,
        RecValue::Url(s) => ValS::UrlV(s@),
        RecValue::Socket(s) => ValS::SocketV(s@),
        RecValue::Pubkey(s) => ValS::PubkeyV(s@),
        RecValue::Array(vs) => ValS::ArrV(view_vals(vs@)),
        RecValue::Object(o) => ValS::ObjV(view_val_fields(o.fields@)),
        RecValue::EnumVariant { enum_name, variant, data } => ValS::VariantV {
            enum_name: enum_name@,
            variant: variant@,
            data: view_data(data),
        },
    }
}

pub open spec fn view_data(d: EnumVariantData) -> DataS
    decreases d,
{
    match d {
        EnumVariantData::Unit => DataS::UnitD,
        EnumVariantData::Tuple(vs) => DataS::TupleD(view_vals(vs@)),
        EnumVariantData::Struct(fs) => DataS::StructD(view_val_fields(fs@)),
    }
}

impl View for RecValue {
    type V = ValS;

    open spec fn view(&self) -> ValS {
        view_val(*self)
    }
}

impl View for EnumVariantData {
    type V = DataS;

    open spec fn view(&self) -> DataS {
        view_data(*self)
    }
}

pub open spec fn view_vals(s: Seq<RecValue>) -> Seq<ValS>
    decreases s,
{
    if s.len() == 0 {
        Seq::empty()
    } else {
        view_vals(s.drop_last()).push(view_val(s.last()))
    }
}

pub open spec fn view_val_fields(s: Seq<(String, RecValue)>) -> Seq<(Seq<char>, ValS)>
    decreases s,
{
    if s.len() == 0 {
        Seq::empty()
    } else {
        view_val_fields(s.drop_last()).push((s.last().0@, view_val(s.last().1)))
    }
}

impl View for RecObject {
    type V = Seq<(Seq<char>, ValS)>;

    open spec fn view(&self) -> Seq<(Seq<char>, ValS)> {
        view_val_fields(self.fields@)
    }
}

impl View for RecDocument {
    type V = DocS;

    open spec fn view(&self) -> DocS {
        DocS {
            inclusions: self.inclusions@.map_values(|s: String| s@),
            types: view_type_defs(self.type_definitions@),
            enums: view_enum_defs(self.enum_definitions@),
            root: self.root@,
        }
    }
}

// ---------------------------------------------------------------------------
// Facts about the list views: length and pointwise agreement.
// ---------------------------------------------------------------------------
pub broadcast proof fn lemma_view_vals(s: Seq<RecValue>)
    ensures
        (#[trigger] view_vals(s)).len() == s.len(),
        forall|i: int| 0 <= i < s.len() ==> view_vals(s)[i] == s[i]@,
    decreases s,
{
    if s.len() > 0 {
        lemma_view_vals(s.drop_last());
    }
}

pub broadcast proof fn lemma_view_val_fields(s: Seq<(String, RecValue)>)
    ensures
        (#[trigger] view_val_fields(s)).len() == s.len(),
        forall|i: int|
            0 <= i < s.len() ==> view_val_fields(s)[i] == (s[i].0@, s[i].1@),
    decreases s,
{
    if s.len() > 0 {
        lemma_view_val_fields(s.drop_last());
    }
}

pub broadcast proof fn lemma_view_types(s: Seq<RecType>)
    ensures
        (#[trigger] view_types(s)).len() == s.len(),
        forall|i: int| 0 <= i < s.len() ==> view_types(s)[i] == s[i]@,
    decreases s,
{
    if s.len() > 0 {
        lemma_view_types(s.drop_last());
    }
}

pub broadcast proof fn lemma_view_field_defs(s: Seq<(String, FieldDef)>)
    ensures
        (#[trigger] view_field_defs(s)).len() == s.len(),
        forall|i: int|
            0 <= i < s.len() ==> view_field_defs(s)[i] == (s[i].0@, s[i].1@),
    decreases s,
{
    if s.len() > 0 {
        lemma_view_field_defs(s.drop_last());
    }
}

pub broadcast proof fn lemma_view_variants(s: Seq<EnumVariant>)
    ensures
        (#[trigger] view_variants(s)).len() == s.len(),
        forall|i: int| 0 <= i < s.len() ==> view_variants(s)[i] == s[i]@,
    decreases s,
{
    if s.len() > 0 {
        lemma_view_variants(s.drop_last());
    }
}

pub broadcast proof fn lemma_view_enum_defs(s: Seq<EnumDef>)
    ensures
        (#[trigger] view_enum_defs(s)).len() == s.len(),
        forall|i: int| 0 <= i < s.len() ==> view_enum_defs(s)[i] == s[i]@,
    decreases s,
{
    if s.len() > 0 {
        lemma_view_enum_defs(s.drop_last());
    }
}

pub broadcast proof fn lemma_view_type_defs(s: Seq<TypeDef>)
    ensures
        (#[trigger] view_type_defs(s)).len() == s.len(),
        forall|i: int| 0 <= i < s.len() ==> view_type_defs(s)[i] == s[i]@,
    decreases s,
{
    if s.len() > 0 {
        lemma_view_type_defs(s.drop_last());
    }
}

// ---------------------------------------------------------------------------
// Name lookup over declaration lists: the last declaration wins.
// ---------------------------------------------------------------------------
pub open spec fn lookup_enum(enums: Seq<EnumDefS>, name: Seq<char>) -> Option<EnumDefS>
    decreases enums,
{
    if enums.len() == 0 {
        None
    } else if enums.last().name == name {
        Some(enums.last())
    } else {
        lookup_enum(enums.drop_last(), name)
    }
}

/// The name of a variant declaration, whatever its shape.
pub open spec fn variant_name(v: VariantS) -> Seq<char> {
    match v {
        VariantS::UnitV(n) => n,
        VariantS::TupleV(n, _) => n,
        VariantS::StructV(n, _) => n,
    }
}

/// The index of the first declared variant with the given name, if any.
pub open spec fn find_variant(vs: Seq<VariantS>, name: Seq<char>) -> Option<VariantS> {
    let i = first_variant_index(vs, name);
    if i < vs.len() {
        Some(vs[i as int])
    } else {
        None
    }
}

pub open spec fn first_variant_index(vs: Seq<VariantS>, name: Seq<char>) -> nat
    decreases vs.len(),
{
    if vs.len() == 0 {
        0
    } else if variant_name(vs[0]) == name {
        0
    } else {
        1 + first_variant_index(vs.drop_first(), name)
    }
}

} // verus!
