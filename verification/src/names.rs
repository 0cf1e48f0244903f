//! Names for fields that were written without one.
//!
//! Within one list of fields, the first unnamed field of a type is named
//! after the type; the second gets the type name followed by `1`, the third
//! the type name followed by `2`, and so on. A field that was given a name
//! keeps it and does not count.

use vstd::prelude::*;
use vstd::string::*;
use rustc_hash::FxHashMap;
use rustc_hash::FxHasher;
use std::hash::BuildHasherDefault;
use crate::ast;
use crate::schema;
use crate::syntax;

verus! {

/// `rustc_hash::FxHasher`, the hasher of the table that counts names.
#[verifier::external_type_specification]
#[verifier::external_body]
pub struct ExFxHasher(FxHasher);

/// `std::hash::BuildHasherDefault`, which makes the hashers of that table.
#[verifier::external_type_specification]
#[verifier::external_body]
#[verifier::reject_recursive_types(H)]
pub struct ExBuildHasherDefault<H>(BuildHasherDefault<H>);

/// The table that counts names: from type names to counts.
pub type Table = FxHashMap<String, usize>;

/// What a table from type names to counts holds: for each name that has been
/// stored, the count stored last.
pub uninterp spec fn indexes(table: Table) -> Map<Seq<char>, usize>;

/// The counts of a table that holds nothing.
pub open spec fn no_counts() -> Map<Seq<char>, usize> {
    Map::empty()
}

/// `FxHashMap::default`: a table that holds nothing.
#[verifier::external_body]
fn empty_table() -> (table: Table)
    ensures
        indexes(table) == no_counts(),
{
    FxHashMap::default()
}

/// `HashMap::get` on an `FxHashMap`: the count stored under `name`, if one is.
#[verifier::external_body]
fn lookup(table: &Table, name: &str) -> (count: Option<usize>)
    ensures
        count == if indexes(*table).contains_key(name@) {
            Some(indexes(*table)[name@])
        } else {
            None
        },
{
    table.get(name).copied()
}

/// `HashMap::insert` on an `FxHashMap`: `count` is stored under `name`, in
/// place of what was stored there; nothing else changes.
#[verifier::external_body]
fn store(table: &mut Table, name: String, count: usize)
    ensures
        indexes(*final(table)) == indexes(*old(table)).insert(name@, count),
{
    table.insert(name, count);
}

/// The character for the digit `d`.
pub open spec fn digit(d: nat) -> char {
    if d == 0 {
        '0'
    } else if d == 1 {
        '1'
    } else if d == 2 {
        '2'
    } else if d == 3 {
        '3'
    } else if d == 4 {
        '4'
    } else if d == 5 {
        '5'
    } else if d == 6 {
        '6'
    } else if d == 7 {
        '7'
    } else if d == 8 {
        '8'
    } else {
        '9'
    }
}

/// The decimal numeral of `n`, without leading zeros.
pub open spec fn decimal(n: nat) -> Seq<char>
    decreases n,
{
    if n < 10 {
        seq![digit(n)]
    } else {
        decimal(n / 10).push(digit(n % 10))
    }
}

/// The name of an unnamed field of type `type_id` before which `index`
/// unnamed fields of that type stand in the same list.
pub open spec fn generated(type_id: Seq<char>, index: nat) -> Seq<char> {
    if index == 0 {
        type_id
    } else {
        type_id + decimal(index)
    }
}

/// How many of the first `i` fields are unnamed and of type `type_id`.
pub open spec fn unnamed_before(fields: Seq<syntax::Field>, i: int, type_id: Seq<char>) -> nat
    decreases i,
{
    if i <= 0 {
        0
    } else {
        unnamed_before(fields, i - 1, type_id) + if fields[i - 1].id is None && fields[i
            - 1].type_id == type_id {
            1nat
        } else {
            0nat
        }
    }
}

/// The name of field `i` of a list: the name it was given, or else the name
/// generated from its type and from the unnamed fields of that type before it.
pub open spec fn resolved_name(fields: Seq<syntax::Field>, i: int) -> Seq<char> {
    match fields[i].id {
        Some(name) => name,
        None => generated(fields[i].type_id, unnamed_before(fields, i, fields[i].type_id)),
    }
}

/// Field `i` of a list, with its name.
pub open spec fn resolved_field(fields: Seq<syntax::Field>, i: int) -> schema::Field {
    schema::Field {
        id: resolved_name(fields, i),
        type_id: fields[i].type_id,
        arity: fields[i].arity,
    }
}

/// The fields of a list, each with its name, in the same order.
pub open spec fn resolved(fields: Seq<syntax::Field>) -> Seq<schema::Field> {
    Seq::new(fields.len(), |i: int| resolved_field(fields, i))
}

/// No more unnamed fields of a type stand before a position than fields.
pub proof fn lemma_unnamed_before_bound(fields: Seq<syntax::Field>, i: int, type_id: Seq<char>)
    requires
        0 <= i,
    ensures
        unnamed_before(fields, i, type_id) <= i,
    decreases i,
{
    if i > 0 {
        lemma_unnamed_before_bound(fields, i - 1, type_id);
    }
}

/// The one-character text for the digit `d`.
pub fn digit_text(d: usize) -> (s: &'static str)
    requires
        d < 10,
    ensures
        s@ == seq![digit(d as nat)],
{
    proof {
        reveal_strlit("0");
        reveal_strlit("1");
        reveal_strlit("2");
        reveal_strlit("3");
        reveal_strlit("4");
        reveal_strlit("5");
        reveal_strlit("6");
        reveal_strlit("7");
        reveal_strlit("8");
        reveal_strlit("9");
    }
    let s = if d == 0 {
        "0"
    } else if d == 1 {
        "1"
    } else if d == 2 {
        "2"
    } else if d == 3 {
        "3"
    } else if d == 4 {
        "4"
    } else if d == 5 {
        "5"
    } else if d == 6 {
        "6"
    } else if d == 7 {
        "7"
    } else if d == 8 {
        "8"
    } else {
        "9"
    };
    assert(s@ =~= seq![digit(d as nat)]);
    s
}

/// Writes the decimal numeral of `n` behind what `buf` holds.
pub fn push_decimal(buf: &mut String, n: usize)
    ensures
        final(buf)@ == old(buf)@ + decimal(n as nat),
    decreases n,
{
    if n >= 10 {
        push_decimal(buf, n / 10);
    }
    buf.append(digit_text(n % 10));
    assert(final(buf)@ =~= old(buf)@ + decimal(n as nat));
}

/// The counts of one list of fields: for each type, how many unnamed fields
/// of it have been named so far.
pub struct FieldNames {
    names_indexes: Table,
}

impl View for FieldNames {
    type V = Map<Seq<char>, usize>;

    closed spec fn view(&self) -> Map<Seq<char>, usize> {
        indexes(self.names_indexes)
    }
}

impl FieldNames {
    /// How many unnamed fields of type `type_id` have been named so far.
    pub open spec fn count(&self, type_id: Seq<char>) -> nat {
        if self@.contains_key(type_id) {
            self@[type_id] as nat
        } else {
            0
        }
    }

    /// The name for a field of type `type_id` that was written with the name
    /// `id`, or with none. A name that was written is the answer, and nothing
    /// is counted. Otherwise the answer is generated from the type and from
    /// the count for the type, and that count goes up by one.
    pub fn get_or_generate(&mut self, id: &Option<ast::Id>, type_id: &ast::TypeId) -> (name: String)
        requires
            id is None ==> old(self).count(type_id.0@) < usize::MAX,
        ensures
            id matches Some(given) ==> name@ == given.0@ && final(self)@ == old(self)@,
            id is None ==> name@ == generated(type_id.0@, old(self).count(type_id.0@)),
            id is None ==> final(self)@ == old(self)@.insert(
                type_id.0@,
                (old(self).count(type_id.0@) + 1) as usize,
            ),
    {
        match id {
            Option::Some(id) => id.to_string(),
            Option::None => {
                let index = match lookup(&self.names_indexes, type_id.0) {
                    Some(index) => index,
                    None => 0,
                };
                let mut res = type_id.to_string();
                if index != 0 {
                    push_decimal(&mut res, index);
                }
                store(&mut self.names_indexes, type_id.to_string(), index + 1);
                res
            },
        }
    }
}

impl Default for FieldNames {
    /// Counts for a new list: nothing has been named.
    fn default() -> (names: FieldNames)
        ensures
            names@ == no_counts(),
    {
        FieldNames { names_indexes: empty_table() }
    }
}

} // verus!
