//! The type model: immutable data structures describing a decoded schema
//! snapshot (typespace, tables, named types, algebraic types).

use vstd::prelude::*;

verus! {

/// How the caller wants the schema presented.
#[derive(Debug, Clone, Copy)]
pub enum OutputFormat {
    Pretty,
    Json,
    Raw,
}

/// The parameters of one schema query invocation.
pub struct SchemaArgs {
    pub db: String,
    pub server: String,
    pub version: Option<String>,
    pub cloud: bool,
    pub format: OutputFormat,
    pub table: Option<String>,
    pub type_filter: Option<String>,
    pub enum_filter: Option<String>,
    pub search: Option<String>,
}

/// A decoded schema document: the typespace, the tables, and the list of
/// named types.
pub struct SatsSchema {
    pub typespace: TypeSpace,
    pub tables: Vec<TableInfo>,
    pub types: Vec<NamedType>,
}

/// The ordered catalog of all type definitions, addressed by position.
pub struct TypeSpace {
    pub types: Vec<TypeDef>,
}

/// One slot of the typespace.
pub enum TypeDef {
    Product(ProductType),
    Sum(SumType),
    Builtin(BuiltinType),
    Ref(u32),
}

/// A builtin typespace slot. Scalars carry no payload; `Array` and `MapOf`
/// carry their element types.
pub enum BuiltinType {
    Bool,
    I8,
    U8,
    I16,
    U16,
    I32,
    U32,
    I64,
    U64,
    I128,
    U128,
    F32,
    F64,
    Str,
    Array(Box<AlgebraicType>),
    MapOf(MapType),
}

/// Key and value types of a builtin map slot.
pub struct MapType {
    pub key_ty: Box<AlgebraicType>,
    pub ty: Box<AlgebraicType>,
}

/// A structural aggregate of named-or-positional fields.
pub struct ProductType {
    pub elements: Vec<Element>,
}

/// A structural tagged union of named-or-positional variants.
pub struct SumType {
    pub variants: Vec<Variant>,
}

/// One field of a product type.
pub struct Element {
    pub name: OptionalName,
    pub algebraic_type: AlgebraicType,
}

/// One variant of a sum type.
pub struct Variant {
    pub name: OptionalName,
    pub algebraic_type: AlgebraicType,
}

/// A possibly absent field or variant name.
pub enum OptionalName {
    Named(String),
    Unnamed,
}

impl OptionalName {
    /// The name as an option: `Some` of the string when present.
    pub fn as_option(&self) -> (r: Option<&str>)
        ensures
            match self {
                OptionalName::Named(s) => r is Some && r->0@ == s@,
                OptionalName::Unnamed => r is None,
            },
    {
        match self {
            OptionalName::Named(s) => Some(s.as_str()),
            OptionalName::Unnamed => None,
        }
    }

    /// Whether a name is present.
    pub open spec fn is_named(self) -> bool {
        self is Named
    }

    /// The name carried by a named entry.
    pub open spec fn spec_name(self) -> Seq<char>
        recommends
            self.is_named(),
    {
        self->Named_0@
    }
}

/// The type attached to table columns, struct fields, and sum variants.
pub enum AlgebraicType {
    Bool,
    I8,
    U8,
    I16,
    U16,
    I32,
    U32,
    I64,
    U64,
    I128,
    U128,
    I256,
    U256,
    F32,
    F64,
    Str,
    Array(Box<AlgebraicType>),
    Product(ProductType),
    Sum(SumType),
    Ref(u32),
}

/// A table: its name, the typespace index of its row type, and the field
/// indices of its primary key.
pub struct TableInfo {
    pub name: String,
    pub product_type_ref: usize,
    pub primary_key: Vec<usize>,
}

/// A name given to one typespace index.
pub struct NamedType {
    pub name: TypeName,
    pub ty: usize,
    pub custom_ordering: bool,
}

/// A scoped display name.
pub struct TypeName {
    pub scope: Vec<String>,
    pub name: String,
}

} // verus!
