//! The syntax tree as a mathematical value: what a parse yields, with every
//! piece of text as a sequence of characters. The contracts of the parser and
//! of the model builder speak of these values.

use vstd::prelude::*;
use crate::model::Arity;

verus! {

/// A field as written: the type it refers to, how many values it holds, and
/// its name where one was given.
pub struct Field {
    pub arity: Arity,
    pub type_id: Seq<char>,
    pub id: Option<Seq<char>>,
}

/// A constructor of a sum type.
pub struct Constr {
    pub id: Seq<char>,
    pub fields: Seq<Field>,
    pub comments: Seq<Seq<char>>,
}

/// A sum type. `attrs` is `None` where the declaration has no attribute list.
pub struct SumType {
    pub type_id: Seq<char>,
    pub constructors: Seq<Constr>,
    pub attrs: Option<Seq<Field>>,
    pub comments: Seq<Seq<char>>,
}

/// A product type.
pub struct ProdType {
    pub type_id: Seq<char>,
    pub fields: Seq<Field>,
    pub comments: Seq<Seq<char>>,
}

/// A declaration.
pub enum Type {
    SumType(SumType),
    ProdType(ProdType),
}

/// A whole text: its declarations in source order and its leading comment.
pub struct Root {
    pub types: Seq<Type>,
    pub comments: Seq<Seq<char>>,
}

impl Type {
    /// The declared name.
    pub open spec fn type_id(self) -> Seq<char> {
        match self {
            Type::SumType(t) => t.type_id,
            Type::ProdType(t) => t.type_id,
        }
    }
}

} // verus!
