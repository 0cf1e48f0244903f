//! The model in the shape that templates read: the declarations by name, the
//! names of the sum types and of the product types in source order, and for
//! each field one flag per arity.
//!
//! Where a name is declared more than once, the last declaration is the one
//! found under the name; the lists of names keep every declaration.

use vstd::prelude::*;
use vstd::string::*;
use vstd::hash_map::StringHashMap;
use vstd::std_specs::convert::FromSpec;
use vstd::std_specs::convert::FromSpecImpl;
use crate::model;
use crate::model::{declared, Arity, AsdlError};
use crate::schema;

verus! {

/// Why no output could be made.
#[derive(Debug)]
pub struct AsdlTeraError {
    details: String,
}

/// A field, with one flag per arity; exactly one of the flags is set.
#[derive(Debug)]
pub struct Field {
    pub id: String,
    pub type_id: String,
    pub is_required: bool,
    pub is_optional: bool,
    pub is_repeated: bool,
}

/// A constructor of a sum type.
#[derive(Debug)]
pub struct Constructor {
    pub id: String,
    pub fields: Vec<Field>,
    pub comments: Vec<String>,
}

/// A sum type; `is_prod_type` is `false`.
#[derive(Debug)]
pub struct SumType {
    pub id: String,
    pub constructors: Vec<Constructor>,
    pub attributes: Vec<Field>,
    pub is_prod_type: bool,
    pub comments: Vec<String>,
}

/// A product type; `is_prod_type` is `true`.
#[derive(Debug)]
pub struct ProdType {
    pub id: String,
    pub fields: Vec<Field>,
    pub is_prod_type: bool,
    pub comments: Vec<String>,
}

/// A declaration.
#[derive(Debug)]
pub enum Type {
    SumType(SumType),
    ProdType(ProdType),
}

/// The model, by name.
pub struct Asdl {
    pub types: StringHashMap<Type>,
    pub prod_types: Vec<String>,
    pub sum_types: Vec<String>,
    pub comments: Vec<String>,
}

impl View for AsdlTeraError {
    type V = Seq<char>;

    closed spec fn view(&self) -> Seq<char> {
        self.details@
    }
}

impl AsdlTeraError {
    /// An error that says `msg`.
    pub fn new(msg: &str) -> (e: Self)
        ensures
            e@ == msg@,
    {
        AsdlTeraError { details: String::from_str(msg) }
    }

    /// What the error says.
    pub fn description(&self) -> (s: &str)
        ensures
            s@ == self@,
    {
        self.details.as_str()
    }

    /// What the error says, as an owned text.
    pub fn to_string(&self) -> (s: String)
        ensures
            s@ == self@,
    {
        self.details.clone()
    }
}

impl From<AsdlError> for AsdlTeraError {
    fn from(err: AsdlError) -> (e: AsdlTeraError) {
        AsdlTeraError { details: err.into_details() }
    }
}

impl FromSpecImpl<AsdlError> for AsdlTeraError {
    open spec fn obeys_from_spec() -> bool {
        true
    }

    closed spec fn from_spec(err: AsdlError) -> AsdlTeraError {
        AsdlTeraError { details: err.details() }
    }
}

/// An error made from another says what the other said.
pub proof fn lemma_from_keeps_the_words(err: AsdlError)
    ensures
        <AsdlTeraError as FromSpec<AsdlError>>::from_spec(err)@ == err@,
{
    err.lemma_details();
}

impl Field {
    /// Whether exactly one of the flags is set.
    pub open spec fn wf(&self) -> bool {
        (self.is_required && !self.is_optional && !self.is_repeated) || (!self.is_required
            && self.is_optional && !self.is_repeated) || (!self.is_required && !self.is_optional
            && self.is_repeated)
    }

    /// The arity that the flags stand for.
    pub open spec fn arity(&self) -> Arity {
        if self.is_optional {
            Arity::Optional
        } else if self.is_repeated {
            Arity::Repeated
        } else {
            Arity::Required
        }
    }

    /// A field that holds exactly one value.
    pub fn required(id: String, type_id: String) -> (f: Self)
        ensures
            f.wf(),
            f.deep_view() == (schema::Field { id: id@, type_id: type_id@, arity: Arity::Required }),
    {
        Field { id, type_id, is_required: true, is_optional: false, is_repeated: false }
    }

    /// A field that holds one value or none.
    pub fn optional(id: String, type_id: String) -> (f: Self)
        ensures
            f.wf(),
            f.deep_view() == (schema::Field { id: id@, type_id: type_id@, arity: Arity::Optional }),
    {
        Field { id, type_id, is_required: false, is_optional: true, is_repeated: false }
    }

    /// A field that holds any number of values.
    pub fn repeated(id: String, type_id: String) -> (f: Self)
        ensures
            f.wf(),
            f.deep_view() == (schema::Field { id: id@, type_id: type_id@, arity: Arity::Repeated }),
    {
        Field { id, type_id, is_required: false, is_optional: false, is_repeated: true }
    }
}

impl DeepView for Field {
    type V = schema::Field;

    open spec fn deep_view(&self) -> schema::Field {
        schema::Field { id: self.id@, type_id: self.type_id@, arity: self.arity() }
    }
}

impl DeepView for Constructor {
    type V = schema::Constructor;

    open spec fn deep_view(&self) -> schema::Constructor {
        schema::Constructor {
            id: self.id@,
            fields: self.fields.deep_view(),
            comments: self.comments.deep_view(),
        }
    }
}

impl DeepView for SumType {
    type V = schema::SumType;

    open spec fn deep_view(&self) -> schema::SumType {
        schema::SumType {
            id: self.id@,
            constructors: self.constructors.deep_view(),
            attributes: self.attributes.deep_view(),
            comments: self.comments.deep_view(),
        }
    }
}

impl DeepView for ProdType {
    type V = schema::ProdType;

    open spec fn deep_view(&self) -> schema::ProdType {
        schema::ProdType {
            id: self.id@,
            fields: self.fields.deep_view(),
            comments: self.comments.deep_view(),
        }
    }
}

impl DeepView for Type {
    type V = schema::Type;

    open spec fn deep_view(&self) -> schema::Type {
        match self {
            Type::SumType(t) => schema::Type::SumType(t.deep_view()),
            Type::ProdType(t) => schema::Type::ProdType(t.deep_view()),
        }
    }
}

/// Whether every field of the list has exactly one flag set.
pub open spec fn fields_wf(fields: Seq<Field>) -> bool {
    forall|i: int| 0 <= i < fields.len() ==> (#[trigger] fields[i]).wf()
}

impl Constructor {
    /// Whether every field has exactly one flag set.
    pub open spec fn wf(&self) -> bool {
        fields_wf(self.fields@)
    }

    pub fn new(id: String, fields: Vec<Field>, comments: Vec<String>) -> (c: Self)
        ensures
            c.id == id,
            c.fields == fields,
            c.comments == comments,
    {
        Constructor { id, fields, comments }
    }
}

impl SumType {
    /// Whether the flags are set as they are meant to be.
    pub open spec fn wf(&self) -> bool {
        &&& !self.is_prod_type
        &&& fields_wf(self.attributes@)
        &&& forall|i: int| 0 <= i < self.constructors@.len() ==> (#[trigger] self.constructors@[i]).wf()
    }

    pub fn new(
        id: String,
        constructors: Vec<Constructor>,
        attributes: Vec<Field>,
        comments: Vec<String>,
    ) -> (t: Self)
        ensures
            t.id == id,
            t.constructors == constructors,
            t.attributes == attributes,
            t.comments == comments,
            !t.is_prod_type,
    {
        SumType { id, constructors, attributes, is_prod_type: false, comments }
    }
}

impl ProdType {
    /// Whether the flags are set as they are meant to be.
    pub open spec fn wf(&self) -> bool {
        self.is_prod_type && fields_wf(self.fields@)
    }

    pub fn new(id: String, fields: Vec<Field>, comments: Vec<String>) -> (t: Self)
        ensures
            t.id == id,
            t.fields == fields,
            t.comments == comments,
            t.is_prod_type,
    {
        ProdType { id, fields, is_prod_type: true, comments }
    }
}

impl Type {
    /// Whether the flags are set as they are meant to be.
    pub open spec fn wf(&self) -> bool {
        match self {
            Type::SumType(t) => t.wf(),
            Type::ProdType(t) => t.wf(),
        }
    }

    /// The declared name.
    pub fn id(&self) -> (s: String)
        ensures
            s@ == self.deep_view().id(),
    {
        match self {
            Type::SumType(sty) => sty.id.clone(),
            Type::ProdType(pty) => pty.id.clone(),
        }
    }
}

impl From<SumType> for Type {
    fn from(n: SumType) -> (t: Type) {
        Type::SumType(n)
    }
}

impl FromSpecImpl<SumType> for Type {
    open spec fn obeys_from_spec() -> bool {
        true
    }

    open spec fn from_spec(n: SumType) -> Type {
        Type::SumType(n)
    }
}

impl From<ProdType> for Type {
    fn from(n: ProdType) -> (t: Type) {
        Type::ProdType(n)
    }
}

impl FromSpecImpl<ProdType> for Type {
    open spec fn obeys_from_spec() -> bool {
        true
    }

    open spec fn from_spec(n: ProdType) -> Type {
        Type::ProdType(n)
    }
}

/// The field `f` with flags in place of its arity.
pub fn field(f: model::Field) -> (t: Field)
    ensures
        t.wf(),
        t.deep_view() == f.deep_view(),
{
    match f.arity {
        Arity::Required => Field::required(f.id, f.type_id),
        Arity::Optional => Field::optional(f.id, f.type_id),
        Arity::Repeated => Field::repeated(f.id, f.type_id),
    }
}

/// The fields of `list` with flags in place of their arities, in the same
/// order.
pub fn fields(list: Vec<model::Field>) -> (t: Vec<Field>)
    ensures
        fields_wf(t@),
        t.deep_view() == list.deep_view(),
{
    let mut t: Vec<Field> = Vec::new();
    let ghost all = list.deep_view();
    for f in it: list
        invariant
            all == list.deep_view(),
            it.seq() == list@,
            t.len() == it.index(),
            fields_wf(t@),
            forall|j: int| 0 <= j < t.len() ==> (#[trigger] t[j]).deep_view() == all[j],
    {
        t.push(field(f));
    }
    assert(t.deep_view() =~= all);
    t
}

/// The constructor `c` with flags in place of arities.
pub fn constr(c: model::Constructor) -> (t: Constructor)
    ensures
        t.wf(),
        t.deep_view() == c.deep_view(),
{
    Constructor::new(c.id, fields(c.fields), c.comments)
}

/// The sum type `ty` with flags in place of arities.
pub fn sum_type(ty: model::SumType) -> (t: SumType)
    ensures
        t.wf(),
        t.deep_view() == ty.deep_view(),
{
    let id = ty.id;
    let mut constructors: Vec<Constructor> = Vec::new();
    let ghost all = ty.constructors.deep_view();
    for c in it: ty.constructors
        invariant
            all == ty.constructors.deep_view(),
            it.seq() == ty.constructors@,
            constructors.len() == it.index(),
            forall|j: int| 0 <= j < constructors.len() ==> (#[trigger] constructors[j]).wf(),
            forall|j: int|
                0 <= j < constructors.len() ==> (#[trigger] constructors[j]).deep_view() == all[j],
    {
        constructors.push(constr(c));
    }
    assert(constructors.deep_view() =~= all);
    let attributes = fields(ty.attributes);
    let comments = ty.comments;
    SumType::new(id, constructors, attributes, comments)
}

/// The product type `ty` with flags in place of arities.
pub fn prod_type(ty: model::ProdType) -> (t: ProdType)
    ensures
        t.wf(),
        t.deep_view() == ty.deep_view(),
{
    ProdType::new(ty.id, fields(ty.fields), ty.comments)
}

/// The declaration `decl` with flags in place of arities.
pub fn ty(decl: model::Type) -> (t: Type)
    ensures
        t.wf(),
        t.deep_view() == decl.deep_view(),
{
    match decl {
        model::Type::SumType(sty) => Type::SumType(sum_type(sty)),
        model::Type::ProdType(pty) => Type::ProdType(prod_type(pty)),
    }
}

/// The names of the declarations of one kind among `types`, in order.
pub open spec fn names_of(types: Seq<schema::Type>, sums: bool) -> Seq<Seq<char>>
    decreases types.len(),
{
    if types.len() == 0 {
        Seq::empty()
    } else if (types.last() is SumType) == sums {
        names_of(types.drop_last(), sums).push(types.last().id())
    } else {
        names_of(types.drop_last(), sums)
    }
}

impl Asdl {
    /// Whether this is the model `m` by name: under each declared name stands
    /// the declaration that counts for it, the lists name the sum types and
    /// the product types in source order, and the flags are set as they are
    /// meant to be.
    pub open spec fn indexes(&self, m: schema::Asdl) -> bool {
        &&& forall|name: Seq<char>| #[trigger]
            self.types@.contains_key(name) <==> declared(m.types, name) is Some
        &&& forall|name: Seq<char>| #[trigger]
            self.types@.contains_key(name) ==> self.types@[name].wf() && Some(
                self.types@[name].deep_view(),
            ) == declared(m.types, name)
        &&& self.sum_types.deep_view() == names_of(m.types, true)
        &&& self.prod_types.deep_view() == names_of(m.types, false)
        &&& self.comments.deep_view() == m.comments
    }

    /// The model `model` by name.
    pub fn new(model: model::Asdl) -> (t: Self)
        ensures
            t.indexes(model.deep_view()),
    {
        let mut types: StringHashMap<Type> = StringHashMap::new();
        let mut prod_types: Vec<String> = Vec::new();
        let mut sum_types: Vec<String> = Vec::new();
        let ghost all = model.types.deep_view();
        for decl in it: model.types
            invariant
                all == model.types.deep_view(),
                it.seq() == model.types@,
                forall|name: Seq<char>| #[trigger]
                    types@.contains_key(name) <==> declared(all.take(it.index() as int), name)
                        is Some,
                forall|name: Seq<char>| #[trigger]
                    types@.contains_key(name) ==> types@[name].wf() && Some(
                        types@[name].deep_view(),
                    ) == declared(all.take(it.index() as int), name),
                sum_types.deep_view() == names_of(all.take(it.index() as int), true),
                prod_types.deep_view() == names_of(all.take(it.index() as int), false),
        {
            let ghost i = it.index() as int;
            let ghost before_sums = sum_types;
            let ghost before_prods = prod_types;
            proof {
                assert(all.take(i + 1).drop_last() =~= all.take(i));
                assert(all.take(i + 1).last() == decl.deep_view());
            }
            let id = match &decl {
                model::Type::SumType(sty) => {
                    sum_types.push(sty.id.clone());
                    sty.id.clone()
                },
                model::Type::ProdType(pty) => {
                    prod_types.push(pty.id.clone());
                    pty.id.clone()
                },
            };
            proof {
                if decl is SumType {
                    assert(sum_types.deep_view() =~= before_sums.deep_view().push(id@));
                    assert(prod_types.deep_view() =~= before_prods.deep_view());
                } else {
                    assert(prod_types.deep_view() =~= before_prods.deep_view().push(id@));
                    assert(sum_types.deep_view() =~= before_sums.deep_view());
                }
            }
            let t = ty(decl);
            types.insert(id, t);
        }
        assert(all.take(all.len() as int) =~= all);
        let comments = model.comments;
        Asdl { types, prod_types, sum_types, comments }
    }

    /// The model of `asdl` by name, where the text has no fault; else the
    /// traces of its diagnostics.
    pub fn parse(asdl: &str) -> (r: Result<Asdl, AsdlTeraError>)
        ensures
            match r {
                Ok(t) => crate::grammar::parse(asdl@).1.len() == 0 && t.indexes(
                    crate::model_impl::model_of(crate::grammar::parse(asdl@).0),
                ),
                Err(e) => crate::grammar::parse(asdl@).1.len() > 0 && e@ == crate::model::traces(
                    asdl@,
                    crate::grammar::parse(asdl@).1,
                ),
            },
    {
        match model::Asdl::parse(asdl) {
            Ok(m) => Ok(Asdl::new(m)),
            Err(e) => {
                proof {
                    lemma_from_keeps_the_words(e);
                }
                Err(AsdlTeraError::from(e))
            },
        }
    }

    /// The declaration of `name`, if there is one.
    pub fn get_type_by_name(&self, name: &str) -> (found: Option<&Type>)
        ensures
            match found {
                Some(t) => self.types@.contains_key(name@) && *t == self.types@[name@],
                None => !self.types@.contains_key(name@),
            },
    {
        self.types.get(name)
    }
}

} // verus!
