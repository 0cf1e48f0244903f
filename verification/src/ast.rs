//! The syntax tree that the parser builds. Its texts are slices of the input,
//! so a tree lives no longer than the text it was read from.

use vstd::prelude::*;
use vstd::string::*;
use vstd::std_specs::convert::FromSpecImpl;
use crate::model::Arity;
use crate::syntax;

verus! {

/// The name of a type.
#[derive(PartialEq, Eq, Hash, Debug)]
pub struct TypeId<'a>(pub &'a str);

/// The name of a constructor.
#[derive(PartialEq, Eq, Hash, Debug)]
pub struct ConstrId<'a>(pub &'a str);

/// The name of a field.
#[derive(PartialEq, Eq, Hash, Debug)]
pub struct Id<'a>(pub &'a str);

/// A field that holds exactly one value.
#[derive(PartialEq, Eq, Hash, Debug)]
pub struct Required<'a> {
    pub type_id: TypeId<'a>,
    pub id: Option<Id<'a>>,
}

/// A field that holds one value or none (`?`).
#[derive(PartialEq, Eq, Hash, Debug)]
pub struct Optional<'a> {
    pub type_id: TypeId<'a>,
    pub id: Option<Id<'a>>,
}

/// A field that holds any number of values (`*`).
#[derive(PartialEq, Eq, Hash, Debug)]
pub struct Repeated<'a> {
    pub type_id: TypeId<'a>,
    pub id: Option<Id<'a>>,
}

/// A field.
#[derive(PartialEq, Eq, Hash, Debug)]
pub enum Field<'a> {
    Required(Required<'a>),
    Optional(Optional<'a>),
    Repeated(Repeated<'a>),
}

/// A constructor of a sum type.
#[derive(PartialEq, Eq, Hash, Debug)]
pub struct Constr<'a> {
    pub id: ConstrId<'a>,
    pub fields: Vec<Field<'a>>,
    pub comments: Vec<&'a str>,
}

/// The attribute list of a sum type.
#[derive(PartialEq, Eq, Hash, Debug)]
pub struct Attrs<'a> {
    pub fields: Vec<Field<'a>>,
}

/// A sum type.
#[derive(PartialEq, Eq, Hash, Debug)]
pub struct SumType<'a> {
    pub type_id: TypeId<'a>,
    pub constructors: Vec<Constr<'a>>,
    pub attrs: Option<Attrs<'a>>,
    pub comments: Vec<&'a str>,
}

/// A product type.
#[derive(PartialEq, Eq, Hash, Debug)]
pub struct ProdType<'a> {
    pub type_id: TypeId<'a>,
    pub fields: Vec<Field<'a>>,
    pub comments: Vec<&'a str>,
}

/// A declaration.
#[derive(PartialEq, Eq, Hash, Debug)]
pub enum Type<'a> {
    SumType(SumType<'a>),
    ProdType(ProdType<'a>),
}

/// A whole text.
#[derive(PartialEq, Eq, Hash, Debug)]
pub struct Root<'a> {
    pub types: Vec<Type<'a>>,
    pub comments: Vec<&'a str>,
}

/// The kinds of node that a syntax tree has.
#[derive(Clone, Copy, Debug, PartialEq, Eq, Hash, Structural)]
pub enum SyntaxKind {
    SumType,
    ProdType,
    Single,
    Opt,
    Sequence,
    Root,
    Constr,
    Attrs,
    TypeId,
    ConstrId,
    Id,
}

impl SyntaxKind {
    /// The name of the kind.
    pub open spec fn name(self) -> Seq<char> {
        match self {
            SyntaxKind::SumType => "SumType"@,
            SyntaxKind::ProdType => "ProdType"@,
            SyntaxKind::Single => "Single"@,
            SyntaxKind::Opt => "Opt"@,
            SyntaxKind::Sequence => "Sequence"@,
            SyntaxKind::Root => "Root"@,
            SyntaxKind::Constr => "Constr"@,
            SyntaxKind::Attrs => "Attrs"@,
            SyntaxKind::TypeId => "TypeId"@,
            SyntaxKind::ConstrId => "ConstrId"@,
            SyntaxKind::Id => "Id"@,
        }
    }
}

/// The name of the kind `kind`.
pub fn kind_name(kind: SyntaxKind) -> (name: &'static str)
    ensures
        name@ == kind.name(),
{
    match kind {
        SyntaxKind::SumType => "SumType",
        SyntaxKind::ProdType => "ProdType",
        SyntaxKind::Single => "Single",
        SyntaxKind::Opt => "Opt",
        SyntaxKind::Sequence => "Sequence",
        SyntaxKind::Root => "Root",
        SyntaxKind::Constr => "Constr",
        SyntaxKind::Attrs => "Attrs",
        SyntaxKind::TypeId => "TypeId",
        SyntaxKind::ConstrId => "ConstrId",
        SyntaxKind::Id => "Id",
    }
}

impl<'a> DeepView for TypeId<'a> {
    type V = Seq<char>;

    open spec fn deep_view(&self) -> Seq<char> {
        self.0@
    }
}

impl<'a> DeepView for ConstrId<'a> {
    type V = Seq<char>;

    open spec fn deep_view(&self) -> Seq<char> {
        self.0@
    }
}

impl<'a> DeepView for Id<'a> {
    type V = Seq<char>;

    open spec fn deep_view(&self) -> Seq<char> {
        self.0@
    }
}

impl<'a> DeepView for Required<'a> {
    type V = syntax::Field;

    open spec fn deep_view(&self) -> syntax::Field {
        syntax::Field {
            arity: Arity::Required,
            type_id: self.type_id.deep_view(),
            id: self.id.deep_view(),
        }
    }
}

impl<'a> DeepView for Optional<'a> {
    type V = syntax::Field;

    open spec fn deep_view(&self) -> syntax::Field {
        syntax::Field {
            arity: Arity::Optional,
            type_id: self.type_id.deep_view(),
            id: self.id.deep_view(),
        }
    }
}

impl<'a> DeepView for Repeated<'a> {
    type V = syntax::Field;

    open spec fn deep_view(&self) -> syntax::Field {
        syntax::Field {
            arity: Arity::Repeated,
            type_id: self.type_id.deep_view(),
            id: self.id.deep_view(),
        }
    }
}

impl<'a> DeepView for Field<'a> {
    type V = syntax::Field;

    open spec fn deep_view(&self) -> syntax::Field {
        match self {
            Field::Required(f) => f.deep_view(),
            Field::Optional(f) => f.deep_view(),
            Field::Repeated(f) => f.deep_view(),
        }
    }
}

impl<'a> DeepView for Constr<'a> {
    type V = syntax::Constr;

    open spec fn deep_view(&self) -> syntax::Constr {
        syntax::Constr {
            id: self.id.deep_view(),
            fields: self.fields.deep_view(),
            comments: self.comments.deep_view(),
        }
    }
}

impl<'a> DeepView for Attrs<'a> {
    type V = Seq<syntax::Field>;

    open spec fn deep_view(&self) -> Seq<syntax::Field> {
        self.fields.deep_view()
    }
}

impl<'a> DeepView for SumType<'a> {
    type V = syntax::SumType;

    open spec fn deep_view(&self) -> syntax::SumType {
        syntax::SumType {
            type_id: self.type_id.deep_view(),
            constructors: self.constructors.deep_view(),
            attrs: self.attrs.deep_view(),
            comments: self.comments.deep_view(),
        }
    }
}

impl<'a> DeepView for ProdType<'a> {
    type V = syntax::ProdType;

    open spec fn deep_view(&self) -> syntax::ProdType {
        syntax::ProdType {
            type_id: self.type_id.deep_view(),
            fields: self.fields.deep_view(),
            comments: self.comments.deep_view(),
        }
    }
}

impl<'a> DeepView for Type<'a> {
    type V = syntax::Type;

    open spec fn deep_view(&self) -> syntax::Type {
        match self {
            Type::SumType(t) => syntax::Type::SumType(t.deep_view()),
            Type::ProdType(t) => syntax::Type::ProdType(t.deep_view()),
        }
    }
}

impl<'a> DeepView for Root<'a> {
    type V = syntax::Root;

    open spec fn deep_view(&self) -> syntax::Root {
        syntax::Root { types: self.types.deep_view(), comments: self.comments.deep_view() }
    }
}

impl<'a> TypeId<'a> {
    /// An owned copy of the name.
    pub fn to_string(&self) -> (s: String)
        ensures
            s@ == self.deep_view(),
    {
        String::from_str(self.0)
    }
}

impl<'a> ConstrId<'a> {
    /// An owned copy of the name.
    pub fn to_string(&self) -> (s: String)
        ensures
            s@ == self.deep_view(),
    {
        String::from_str(self.0)
    }
}

impl<'a> Id<'a> {
    /// An owned copy of the name.
    pub fn to_string(&self) -> (s: String)
        ensures
            s@ == self.deep_view(),
    {
        String::from_str(self.0)
    }
}

impl<'a> Required<'a> {
    pub fn new(type_id: TypeId<'a>, id: Option<Id<'a>>) -> (f: Self)
        ensures
            f.type_id == type_id,
            f.id == id,
    {
        Required { type_id, id }
    }
}

impl<'a> Optional<'a> {
    pub fn new(type_id: TypeId<'a>, id: Option<Id<'a>>) -> (f: Self)
        ensures
            f.type_id == type_id,
            f.id == id,
    {
        Optional { type_id, id }
    }
}

impl<'a> Repeated<'a> {
    pub fn new(type_id: TypeId<'a>, id: Option<Id<'a>>) -> (f: Self)
        ensures
            f.type_id == type_id,
            f.id == id,
    {
        Repeated { type_id, id }
    }
}

impl<'a> Type<'a> {
    /// Which kind of declaration this is.
    pub fn kind(&self) -> (k: SyntaxKind)
        ensures
            k == match self {
                Type::SumType(_) => SyntaxKind::SumType,
                Type::ProdType(_) => SyntaxKind::ProdType,
            },
    {
        match self {
            Type::SumType(_) => SyntaxKind::SumType,
            Type::ProdType(_) => SyntaxKind::ProdType,
        }
    }
}

impl<'a> Field<'a> {
    /// Which kind of field this is.
    pub fn kind(&self) -> (k: SyntaxKind)
        ensures
            k == match self.deep_view().arity {
                Arity::Required => SyntaxKind::Single,
                Arity::Optional => SyntaxKind::Opt,
                Arity::Repeated => SyntaxKind::Sequence,
            },
    {
        match self {
            Field::Required(_) => SyntaxKind::Single,
            Field::Optional(_) => SyntaxKind::Opt,
            Field::Repeated(_) => SyntaxKind::Sequence,
        }
    }

    /// The type that the field refers to.
    pub fn type_id(&self) -> (t: &TypeId<'a>)
        ensures
            t.deep_view() == self.deep_view().type_id,
    {
        match self {
            Field::Required(f) => &f.type_id,
            Field::Optional(f) => &f.type_id,
            Field::Repeated(f) => &f.type_id,
        }
    }

    /// The name of the field, where one was given.
    pub fn id(&self) -> (i: &Option<Id<'a>>)
        ensures
            i.deep_view() == self.deep_view().id,
    {
        match self {
            Field::Required(f) => &f.id,
            Field::Optional(f) => &f.id,
            Field::Repeated(f) => &f.id,
        }
    }

    /// How many values the field holds.
    pub fn arity(&self) -> (a: Arity)
        ensures
            a == self.deep_view().arity,
    {
        match self {
            Field::Required(_) => Arity::Required,
            Field::Optional(_) => Arity::Optional,
            Field::Repeated(_) => Arity::Repeated,
        }
    }
}

impl<'a> Constr<'a> {
    pub fn new(id: ConstrId<'a>, fields: Vec<Field<'a>>, comments: Vec<&'a str>) -> (c: Self)
        ensures
            c.id == id,
            c.fields == fields,
            c.comments == comments,
    {
        Constr { id, fields, comments }
    }
}

impl<'a> Attrs<'a> {
    pub fn new(fields: Vec<Field<'a>>) -> (a: Self)
        ensures
            a.fields == fields,
    {
        Attrs { fields }
    }
}

impl<'a> SumType<'a> {
    pub fn new(
        type_id: TypeId<'a>,
        constructors: Vec<Constr<'a>>,
        attrs: Option<Attrs<'a>>,
        comments: Vec<&'a str>,
    ) -> (t: Self)
        ensures
            t.type_id == type_id,
            t.constructors == constructors,
            t.attrs == attrs,
            t.comments == comments,
    {
        SumType { type_id, constructors, attrs, comments }
    }
}

impl<'a> ProdType<'a> {
    pub fn new(type_id: TypeId<'a>, fields: Vec<Field<'a>>, comments: Vec<&'a str>) -> (t: Self)
        ensures
            t.type_id == type_id,
            t.fields == fields,
            t.comments == comments,
    {
        ProdType { type_id, fields, comments }
    }
}

impl<'a> Root<'a> {
    pub fn new(types: Vec<Type<'a>>, comments: Vec<&'a str>) -> (r: Self)
        ensures
            r.types == types,
            r.comments == comments,
    {
        Root { types, comments }
    }
}

impl<'a> From<SumType<'a>> for Type<'a> {
    fn from(n: SumType<'a>) -> (t: Type<'a>) {
        Type::SumType(n)
    }
}

impl<'a> FromSpecImpl<SumType<'a>> for Type<'a> {
    open spec fn obeys_from_spec() -> bool {
        true
    }

    open spec fn from_spec(n: SumType<'a>) -> Type<'a> {
        Type::SumType(n)
    }
}

impl<'a> From<ProdType<'a>> for Type<'a> {
    fn from(n: ProdType<'a>) -> (t: Type<'a>) {
        Type::ProdType(n)
    }
}

impl<'a> FromSpecImpl<ProdType<'a>> for Type<'a> {
    open spec fn obeys_from_spec() -> bool {
        true
    }

    open spec fn from_spec(n: ProdType<'a>) -> Type<'a> {
        Type::ProdType(n)
    }
}

impl<'a> From<Required<'a>> for Field<'a> {
    fn from(n: Required<'a>) -> (f: Field<'a>) {
        Field::Required(n)
    }
}

impl<'a> FromSpecImpl<Required<'a>> for Field<'a> {
    open spec fn obeys_from_spec() -> bool {
        true
    }

    open spec fn from_spec(n: Required<'a>) -> Field<'a> {
        Field::Required(n)
    }
}

impl<'a> From<Optional<'a>> for Field<'a> {
    fn from(n: Optional<'a>) -> (f: Field<'a>) {
        Field::Optional(n)
    }
}

impl<'a> FromSpecImpl<Optional<'a>> for Field<'a> {
    open spec fn obeys_from_spec() -> bool {
        true
    }

    open spec fn from_spec(n: Optional<'a>) -> Field<'a> {
        Field::Optional(n)
    }
}

impl<'a> From<Repeated<'a>> for Field<'a> {
    fn from(n: Repeated<'a>) -> (f: Field<'a>) {
        Field::Repeated(n)
    }
}

impl<'a> FromSpecImpl<Repeated<'a>> for Field<'a> {
    open spec fn obeys_from_spec() -> bool {
        true
    }

    open spec fn from_spec(n: Repeated<'a>) -> Field<'a> {
        Field::Repeated(n)
    }
}

} // verus!
