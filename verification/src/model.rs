//! The model: what a text declares, owned by the caller and free of any tie
//! to the text it was read from. Every field of the model has a name.

use vstd::prelude::*;
use vstd::string::*;
use vstd::std_specs::convert::FromSpecImpl;
use crate::ast;
use crate::diagnostics::{frames_of, printable, trace, Error};
use crate::grammar;
use crate::grammar::Stack;
use crate::model_impl::model_of;
use crate::parser;
use crate::schema;

verus! {

/// How many values a field holds.
#[derive(Clone, Copy, Debug, PartialEq, Eq, Hash, Structural)]
pub enum Arity {
    /// One value or none (`?`).
    Optional,
    /// Exactly one value.
    Required,
    /// Any number of values (`*`).
    Repeated,
}

/// A field with its resolved name.
#[derive(Debug, PartialEq, Eq, Hash)]
pub struct Field {
    pub id: String,
    pub type_id: String,
    pub arity: Arity,
}

/// A constructor of a sum type.
#[derive(Debug, PartialEq, Eq, Hash)]
pub struct Constructor {
    pub id: String,
    pub fields: Vec<Field>,
    pub comments: Vec<String>,
}

/// A sum type.
#[derive(Debug, PartialEq, Eq, Hash)]
pub struct SumType {
    pub id: String,
    pub constructors: Vec<Constructor>,
    pub attributes: Vec<Field>,
    pub comments: Vec<String>,
}

/// A product type.
#[derive(Debug, PartialEq, Eq, Hash)]
pub struct ProdType {
    pub id: String,
    pub fields: Vec<Field>,
    pub comments: Vec<String>,
}

/// A declaration.
#[derive(Debug, PartialEq, Eq, Hash)]
pub enum Type {
    SumType(SumType),
    ProdType(ProdType),
}

/// The declarations of a text in source order, and its leading comment.
#[derive(Debug, PartialEq, Eq, Hash)]
pub struct Asdl {
    pub types: Vec<Type>,
    pub comments: Vec<String>,
}

/// Why a text gave no model: the traces of its diagnostics.
#[derive(Debug)]
pub struct AsdlError {
    details: String,
}

impl DeepView for Field {
    type V = schema::Field;

    open spec fn deep_view(&self) -> schema::Field {
        schema::Field { id: self.id@, type_id: self.type_id@, arity: self.arity }
    }
}

impl DeepView for Constructor {
    type V = schema::Constructor;

    open spec fn deep_view(&self) -> schema::Constructor {
        schema::Constructor {
            id: self.id@,
            fields: self.fields.deep_view(),
            comments: self.comments.deep_view(),
        }
    }
}

impl DeepView for SumType {
    type V = schema::SumType;

    open spec fn deep_view(&self) -> schema::SumType {
        schema::SumType {
            id: self.id@,
            constructors: self.constructors.deep_view(),
            attributes: self.attributes.deep_view(),
            comments: self.comments.deep_view(),
        }
    }
}

impl DeepView for ProdType {
    type V = schema::ProdType;

    open spec fn deep_view(&self) -> schema::ProdType {
        schema::ProdType {
            id: self.id@,
            fields: self.fields.deep_view(),
            comments: self.comments.deep_view(),
        }
    }
}

impl DeepView for Type {
    type V = schema::Type;

    open spec fn deep_view(&self) -> schema::Type {
        match self {
            Type::SumType(t) => schema::Type::SumType(t.deep_view()),
            Type::ProdType(t) => schema::Type::ProdType(t.deep_view()),
        }
    }
}

impl DeepView for Asdl {
    type V = schema::Asdl;

    open spec fn deep_view(&self) -> schema::Asdl {
        schema::Asdl { types: self.types.deep_view(), comments: self.comments.deep_view() }
    }
}

impl View for AsdlError {
    type V = Seq<char>;

    closed spec fn view(&self) -> Seq<char> {
        self.details@
    }
}

impl AsdlError {
    /// An error that says `details`.
    pub fn new(details: String) -> (e: AsdlError)
        ensures
            e@ == details@,
    {
        AsdlError { details }
    }

    /// What the error says.
    pub fn description(&self) -> (s: &str)
        ensures
            s@ == self@,
    {
        self.details.as_str()
    }

    /// The text that the error holds.
    pub closed spec fn details(self) -> String {
        self.details
    }

    /// The text that the error holds is what the error says.
    pub proof fn lemma_details(self)
        ensures
            self.details()@ == self@,
    {
    }

    /// The text that the error holds.
    pub fn into_details(self) -> (s: String)
        ensures
            s == self.details(),
            s@ == self@,
    {
        self.details
    }

    /// What the error says, as an owned text.
    pub fn to_string(&self) -> (s: String)
        ensures
            s@ == self@,
    {
        self.details.clone()
    }
}

impl Type {
    /// The declared name.
    pub fn id(&self) -> (s: String)
        ensures
            s@ == self.deep_view().id(),
    {
        match self {
            Type::SumType(sty) => sty.id.clone(),
            Type::ProdType(pty) => pty.id.clone(),
        }
    }

    /// The declared name, borrowed.
    pub fn name(&self) -> (s: &str)
        ensures
            s@ == self.deep_view().id(),
    {
        match self {
            Type::SumType(sty) => sty.id.as_str(),
            Type::ProdType(pty) => pty.id.as_str(),
        }
    }
}

/// The declaration of `name`: where a name is declared more than once, the
/// last declaration counts.
pub open spec fn declared(types: Seq<schema::Type>, name: Seq<char>) -> Option<schema::Type>
    decreases types.len(),
{
    if types.len() == 0 {
        None
    } else if types.last().id() == name {
        Some(types.last())
    } else {
        declared(types.drop_last(), name)
    }
}

/// The traces of the diagnostics `diags` against `input`, one after the
/// other.
pub open spec fn traces(input: Seq<char>, diags: Seq<Stack>) -> Seq<char>
    decreases diags.len(),
{
    if diags.len() == 0 {
        Seq::empty()
    } else {
        traces(input, diags.drop_last()) + trace(
            input,
            frames_of(printable(diags.last(), input.len())),
        )
    }
}

/// The traces of `diagnostics` against `input`, one after the other.
pub fn render_all(input: &str, diagnostics: &Vec<Error>) -> (text: String)
    ensures
        text@ == traces(input@, diagnostics.deep_view()),
{
    let mut text = String::new();
    let mut i: usize = 0;
    while i < diagnostics.len()
        invariant
            i <= diagnostics.len(),
            text@ == traces(input@, diagnostics.deep_view().take(i as int)),
        decreases diagnostics.len() - i,
    {
        let one = diagnostics[i].render(input);
        text.append(one.as_str());
        proof {
            let all = diagnostics.deep_view();
            assert(all.take(i + 1).drop_last() =~= all.take(i as int));
            assert(all.take(i + 1).last() == diagnostics[i as int].errors@);
        }
        i += 1;
    }
    assert(diagnostics.deep_view().take(i as int) =~= diagnostics.deep_view());
    text
}

/// The syntax tree of `asdl`, where the text has no fault; else the traces of
/// its diagnostics.
pub fn ast<'a>(asdl: &'a str) -> (r: Result<ast::Root<'a>, AsdlError>)
    ensures
        match r {
            Ok(root) => grammar::parse(asdl@).1.len() == 0 && root.deep_view() == grammar::parse(
                asdl@,
            ).0,
            Err(e) => grammar::parse(asdl@).1.len() > 0 && e@ == traces(
                asdl@,
                grammar::parse(asdl@).1,
            ),
        },
{
    let (root, diagnostics) = parser::parse(asdl);
    if diagnostics.len() == 0 {
        Ok(root)
    } else {
        Err(AsdlError::new(render_all(asdl, &diagnostics)))
    }
}

/// The model of `asdl` as far as the text can be read, and the diagnostics of
/// what cannot. A declaration that cannot be read is not in the model.
pub fn model(asdl: &str) -> (r: (Asdl, Vec<Error>))
    ensures
        r.0.deep_view() == model_of(grammar::parse(asdl@).0),
        r.1.deep_view() == grammar::parse(asdl@).1,
{
    let (root, diagnostics) = parser::parse(asdl);
    (Asdl::new(&root), diagnostics)
}

impl Asdl {
    /// The model of `asdl`, where the text has no fault; else the traces of
    /// its diagnostics.
    pub fn parse(asdl: &str) -> (r: Result<Asdl, AsdlError>)
        ensures
            match r {
                Ok(model) => grammar::parse(asdl@).1.len() == 0 && model.deep_view() == model_of(
                    grammar::parse(asdl@).0,
                ),
                Err(e) => grammar::parse(asdl@).1.len() > 0 && e@ == traces(
                    asdl@,
                    grammar::parse(asdl@).1,
                ),
            },
    {
        match ast(asdl) {
            Ok(root) => Ok(Asdl::new(&root)),
            Err(e) => Err(e),
        }
    }

    /// The declaration of `name`, if there is one: the last, where there are
    /// several.
    pub fn get_type_by_name(&self, name: &str) -> (found: Option<&Type>)
        ensures
            found.deep_view() == declared(self.deep_view().types, name@),
    {
        let wanted = String::from_str(name);
        let mut i: usize = self.types.len();
        let ghost all = self.deep_view().types;
        assert(all.take(i as int) =~= all);
        while i > 0
            invariant
                i <= self.types.len(),
                all == self.deep_view().types,
                wanted@ == name@,
                declared(all.take(i as int), name@) == declared(all, name@),
            decreases i,
        {
            i -= 1;
            let t = &self.types[i];
            let same = match t {
                Type::SumType(sty) => sty.id == wanted,
                Type::ProdType(pty) => pty.id == wanted,
            };
            proof {
                assert(all.take(i + 1).last() == t.deep_view());
                assert(all.take(i + 1).drop_last() =~= all.take(i as int));
            }
            if same {
                return Some(t);
            }
        }
        assert(all.take(0).len() == 0);
        None
    }
}

impl From<SumType> for Type {
    fn from(n: SumType) -> (t: Type) {
        Type::SumType(n)
    }
}

impl FromSpecImpl<SumType> for Type {
    open spec fn obeys_from_spec() -> bool {
        true
    }

    open spec fn from_spec(n: SumType) -> Type {
        Type::SumType(n)
    }
}

impl From<ProdType> for Type {
    fn from(n: ProdType) -> (t: Type) {
        Type::ProdType(n)
    }
}

impl FromSpecImpl<ProdType> for Type {
    open spec fn obeys_from_spec() -> bool {
        true
    }

    open spec fn from_spec(n: ProdType) -> Type {
        Type::ProdType(n)
    }
}

} // verus!
