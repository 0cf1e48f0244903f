//! From the syntax tree to the model: texts are copied, and every field gets
//! its name. Each constructor, each product type and each attribute list
//! names its fields on its own.

use vstd::prelude::*;
use vstd::string::*;
use crate::ast;
use crate::model::{Arity, Asdl, Constructor, Field, ProdType, SumType, Type};
use crate::names::{lemma_unnamed_before_bound, resolved, resolved_field, unnamed_before, FieldNames};
use crate::parser::{lemma_deep_empty, lemma_deep_push};
use crate::schema;
use crate::syntax;

verus! {

/// The model of a constructor.
pub open spec fn constructor_model(c: syntax::Constr) -> schema::Constructor {
    schema::Constructor { id: c.id, fields: resolved(c.fields), comments: c.comments }
}

/// The model of a sum type. One without an attribute list has no attributes.
pub open spec fn sum_type_model(t: syntax::SumType) -> schema::SumType {
    schema::SumType {
        id: t.type_id,
        constructors: Seq::new(t.constructors.len(), |i: int| constructor_model(t.constructors[i])),
        attributes: match t.attrs {
            Some(fields) => resolved(fields),
            None => Seq::empty(),
        },
        comments: t.comments,
    }
}

/// The model of a product type.
pub open spec fn prod_type_model(t: syntax::ProdType) -> schema::ProdType {
    schema::ProdType { id: t.type_id, fields: resolved(t.fields), comments: t.comments }
}

/// The model of a declaration.
pub open spec fn type_model(t: syntax::Type) -> schema::Type {
    match t {
        syntax::Type::SumType(t) => schema::Type::SumType(sum_type_model(t)),
        syntax::Type::ProdType(t) => schema::Type::ProdType(prod_type_model(t)),
    }
}

/// The model of a text: the models of its declarations, in the same order,
/// and its leading comment.
pub open spec fn model_of(root: syntax::Root) -> schema::Asdl {
    schema::Asdl {
        types: Seq::new(root.types.len(), |i: int| type_model(root.types[i])),
        comments: root.comments,
    }
}

impl Asdl {
    /// The model of the tree `root`.
    pub fn new(root: &ast::Root) -> (model: Self)
        ensures
            model.deep_view() == model_of(root.deep_view()),
    {
        let mut types: Vec<Type> = Vec::new();
        let mut i: usize = 0;
        while i < root.types.len()
            invariant
                i <= root.types.len(),
                types.len() == i,
                forall|j: int|
                    0 <= j < i ==> (#[trigger] types[j]).deep_view() == type_model(
                        root.types[j].deep_view(),
                    ),
            decreases root.types.len() - i,
        {
            let t = ty(&root.types[i]);
            types.push(t);
            i += 1;
        }
        let model = Asdl { types, comments: comments(&root.comments) };
        assert(model.deep_view().types =~= model_of(root.deep_view()).types);
        model
    }
}

/// The model of a declaration.
pub fn ty(decl: &ast::Type) -> (t: Type)
    ensures
        t.deep_view() == type_model(decl.deep_view()),
{
    match decl {
        ast::Type::SumType(sty) => Type::SumType(sum_type(sty)),
        ast::Type::ProdType(pty) => Type::ProdType(prod_type(pty)),
    }
}

impl SumType {
    pub fn new(
        id: String,
        constructors: Vec<Constructor>,
        attributes: Vec<Field>,
        comments: Vec<String>,
    ) -> (t: Self)
        ensures
            t.id == id,
            t.constructors == constructors,
            t.attributes == attributes,
            t.comments == comments,
    {
        SumType { id, constructors, attributes, comments }
    }
}

/// The model of a sum type.
pub fn sum_type(ty: &ast::SumType) -> (t: SumType)
    ensures
        t.deep_view() == sum_type_model(ty.deep_view()),
{
    let id = ty.type_id.to_string();
    let mut constructors: Vec<Constructor> = Vec::new();
    let mut i: usize = 0;
    while i < ty.constructors.len()
        invariant
            i <= ty.constructors.len(),
            constructors.len() == i,
            forall|j: int|
                0 <= j < i ==> (#[trigger] constructors[j]).deep_view() == constructor_model(
                    ty.constructors[j].deep_view(),
                ),
        decreases ty.constructors.len() - i,
    {
        let c = constr(&ty.constructors[i]);
        constructors.push(c);
        i += 1;
    }
    let attributes = match &ty.attrs {
        Some(a) => fields(&a.fields),
        None => {
            let none: Vec<Field> = Vec::new();
            proof {
                lemma_deep_empty(none);
            }
            none
        },
    };
    let t = SumType::new(id, constructors, attributes, comments(&ty.comments));
    assert(t.deep_view().constructors =~= sum_type_model(ty.deep_view()).constructors);
    t
}

impl Constructor {
    pub fn new(id: String, fields: Vec<Field>, comments: Vec<String>) -> (c: Self)
        ensures
            c.id == id,
            c.fields == fields,
            c.comments == comments,
    {
        Constructor { id, fields, comments }
    }
}

/// The model of a constructor.
pub fn constr(c: &ast::Constr) -> (m: Constructor)
    ensures
        m.deep_view() == constructor_model(c.deep_view()),
{
    Constructor::new(c.id.to_string(), fields(&c.fields), comments(&c.comments))
}

impl ProdType {
    pub fn new(id: String, fields: Vec<Field>, comments: Vec<String>) -> (t: Self)
        ensures
            t.id == id,
            t.fields == fields,
            t.comments == comments,
    {
        ProdType { id, fields, comments }
    }
}

/// The model of a product type.
pub fn prod_type(ty: &ast::ProdType) -> (t: ProdType)
    ensures
        t.deep_view() == prod_type_model(ty.deep_view()),
{
    ProdType::new(ty.type_id.to_string(), fields(&ty.fields), comments(&ty.comments))
}

/// Owned copies of comment lines, in the same order.
pub fn comments(borrowed: &Vec<&str>) -> (lines: Vec<String>)
    ensures
        lines.deep_view() == borrowed.deep_view(),
{
    let mut lines: Vec<String> = Vec::new();
    let mut i: usize = 0;
    while i < borrowed.len()
        invariant
            i <= borrowed.len(),
            lines.len() == i,
            forall|j: int| 0 <= j < i ==> (#[trigger] lines[j])@ == borrowed[j]@,
        decreases borrowed.len() - i,
    {
        lines.push(String::from_str(borrowed[i]));
        i += 1;
    }
    assert(lines.deep_view() =~= borrowed.deep_view());
    lines
}

/// The fields of one list, each with its name. The list is named on its own:
/// what other lists hold plays no part.
pub fn fields(list: &Vec<ast::Field>) -> (named: Vec<Field>)
    ensures
        named.deep_view() == resolved(list.deep_view()),
{
    let mut names = FieldNames::default();
    let mut named: Vec<Field> = Vec::new();
    let mut i: usize = 0;
    let ghost written = list.deep_view();
    while i < list.len()
        invariant
            i <= list.len(),
            named.len() == i,
            written == list.deep_view(),
            forall|t: Seq<char>| #[trigger] names.count(t) == unnamed_before(written, i as int, t),
            forall|j: int|
                0 <= j < i ==> (#[trigger] named[j]).deep_view() == resolved_field(written, j),
        decreases list.len() - i,
    {
        proof {
            lemma_unnamed_before_bound(written, i as int, written[i as int].type_id);
            assert(written[i as int] == list[i as int].deep_view());
        }
        let ghost before = names;
        let f = field(&list[i], &mut names);
        proof {
            let this = written[i as int];
            assert forall|t: Seq<char>| #[trigger]
                names.count(t) == unnamed_before(written, i + 1, t) by {
                assert(before.count(t) == unnamed_before(written, i as int, t));
                assert(before.count(this.type_id) == unnamed_before(
                    written,
                    i as int,
                    this.type_id,
                ));
                if this.id is None {
                    if this.type_id == t {
                        assert(names@.contains_key(t));
                    } else {
                        assert(names@.contains_key(t) == before@.contains_key(t));
                        assert(before@.contains_key(t) ==> names@[t] == before@[t]);
                    }
                } else {
                    assert(names@ == before@);
                }
            }
        }
        named.push(f);
        i += 1;
    }
    assert(named.deep_view() =~= resolved(written));
    named
}

impl Field {
    pub fn required(id: String, type_id: String) -> (f: Self)
        ensures
            f.id == id,
            f.type_id == type_id,
            f.arity == Arity::Required,
    {
        Field { id, type_id, arity: Arity::Required }
    }

    pub fn optional(id: String, type_id: String) -> (f: Self)
        ensures
            f.id == id,
            f.type_id == type_id,
            f.arity == Arity::Optional,
    {
        Field { id, type_id, arity: Arity::Optional }
    }

    pub fn repeated(id: String, type_id: String) -> (f: Self)
        ensures
            f.id == id,
            f.type_id == type_id,
            f.arity == Arity::Repeated,
    {
        Field { id, type_id, arity: Arity::Repeated }
    }
}

/// The field `f` with its name: the name it was written with, or else the
/// next name that `names` has for its type.
pub fn field(f: &ast::Field, names: &mut FieldNames) -> (named: Field)
    requires
        f.deep_view().id is None ==> old(names).count(f.deep_view().type_id) < usize::MAX,
    ensures
        named.deep_view().type_id == f.deep_view().type_id,
        named.deep_view().arity == f.deep_view().arity,
        named.deep_view().id == match f.deep_view().id {
            Some(given) => given,
            None => crate::names::generated(
                f.deep_view().type_id,
                old(names).count(f.deep_view().type_id),
            ),
        },
        f.deep_view().id is Some ==> final(names)@ == old(names)@,
        f.deep_view().id is None ==> final(names)@ == old(names)@.insert(
            f.deep_view().type_id,
            (old(names).count(f.deep_view().type_id) + 1) as usize,
        ),
{
    match f {
        ast::Field::Required(f) => {
            Field::required(names.get_or_generate(&f.id, &f.type_id), f.type_id.to_string())
        },
        ast::Field::Optional(f) => {
            Field::optional(names.get_or_generate(&f.id, &f.type_id), f.type_id.to_string())
        },
        ast::Field::Repeated(f) => {
            Field::repeated(names.get_or_generate(&f.id, &f.type_id), f.type_id.to_string())
        },
    }
}

} // verus!
