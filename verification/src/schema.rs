//! The model as a mathematical value: declarations whose fields all have a
//! name, with every piece of text as a sequence of characters.

use vstd::prelude::*;
use crate::model::Arity;

verus! {

/// A field: its name, the type it refers to, and how many values it holds.
pub struct Field {
    pub id: Seq<char>,
    pub type_id: Seq<char>,
    pub arity: Arity,
}

/// A constructor of a sum type.
pub struct Constructor {
    pub id: Seq<char>,
    pub fields: Seq<Field>,
    pub comments: Seq<Seq<char>>,
}

/// A sum type; `attributes` are the fields that all its constructors share.
pub struct SumType {
    pub id: Seq<char>,
    pub constructors: Seq<Constructor>,
    pub attributes: Seq<Field>,
    pub comments: Seq<Seq<char>>,
}

/// A product type.
pub struct ProdType {
    pub id: Seq<char>,
    pub fields: Seq<Field>,
    pub comments: Seq<Seq<char>>,
}

/// A declaration.
pub enum Type {
    SumType(SumType),
    ProdType(ProdType),
}

/// The declarations of a text in source order, and its leading comment.
pub struct Asdl {
    pub types: Seq<Type>,
    pub comments: Seq<Seq<char>>,
}

impl Type {
    /// The declared name.
    pub open spec fn id(self) -> Seq<char> {
        match self {
            Type::SumType(t) => t.id,
            Type::ProdType(t) => t.id,
        }
    }
}

} // verus!
