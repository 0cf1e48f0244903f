//! What holds of the library as a whole.

use vstd::prelude::*;
use crate::grammar;
use crate::lexer::{
    in_class,
    is_lower,
    is_upper,
    is_word,
    keyword,
    lemma_lex_tiles,
    lemma_lex_token_at,
    lemma_run_end,
    lemma_tiles_bounds,
    lex,
    text_of,
    CharClass,
    Token,
    TokenKind,
};
use crate::model::Arity;
use crate::model_impl::{model_of, type_model};
use crate::names::{decimal, digit, generated, resolved, resolved_name, unnamed_before};
use crate::syntax;

verus! {

/// The empty text is no fault: it has no declarations, no comment and no
/// diagnostics.
pub proof fn lemma_empty_text()
    ensures
        grammar::parse(Seq::<char>::empty()) == (
            syntax::Root { types: Seq::empty(), comments: Seq::empty() },
            Seq::<grammar::Stack>::empty(),
        ),
{
    let s = Seq::<char>::empty();
    let toks = lex(s);
    assert(toks.len() == 0);
    reveal(grammar::root_comments);
    reveal(grammar::comments);
    reveal(grammar::comment_line);
}

/// The arity of a field is what stands directly behind its type: `*` makes
/// it repeated, `?` optional, and anything else that lets the field be read
/// leaves it required.
pub proof fn lemma_arity_follows_the_mark(s: Seq<char>, toks: Seq<Token>, p: int)
    requires
        grammar::field(s, toks, p) is Ok,
    ensures
        grammar::kind_at(toks, p) == Some(TokenKind::TypeIdent),
        grammar::field(s, toks, p)->Ok_0.1.type_id == grammar::text_at(s, toks, p),
        grammar::field(s, toks, p)->Ok_0.1.arity == if grammar::kind_at(toks, p + 1) == Some(
            TokenKind::Star,
        ) {
            Arity::Repeated
        } else if grammar::kind_at(toks, p + 1) == Some(TokenKind::Question) {
            Arity::Optional
        } else {
            Arity::Required
        },
{
    reveal(grammar::field);
}

/// Naming keeps a list of fields as it is but for the names: as many fields,
/// in the same order, each with the type and the arity it was written with.
pub proof fn lemma_naming_keeps_arities(fields: Seq<syntax::Field>)
    ensures
        resolved(fields).len() == fields.len(),
        forall|i: int|
            0 <= i < fields.len() ==> (#[trigger] resolved(fields)[i]).arity == fields[i].arity
                && resolved(fields)[i].type_id == fields[i].type_id,
{
}

/// The model has the declarations of the tree: as many, in the same order,
/// each of its kind and under its name.
pub proof fn lemma_model_keeps_declarations(root: syntax::Root)
    ensures
        model_of(root).types.len() == root.types.len(),
        model_of(root).comments == root.comments,
        forall|i: int|
            0 <= i < root.types.len() ==> (#[trigger] model_of(root).types[i]) == type_model(
                root.types[i],
            ) && model_of(root).types[i].id() == root.types[i].type_id() && (model_of(
                root,
            ).types[i] is SumType <==> root.types[i] is SumType),
{
}

/// A name that was written is never replaced.
pub proof fn lemma_given_names_are_kept(fields: Seq<syntax::Field>, i: int)
    requires
        0 <= i < fields.len(),
        fields[i].id is Some,
    ensures
        resolved(fields)[i].id == fields[i].id->0,
{
}

/// The first unnamed field of a type is named after the type.
pub proof fn lemma_first_unnamed_takes_the_type_name(fields: Seq<syntax::Field>, i: int)
    requires
        0 <= i < fields.len(),
        fields[i].id is None,
        forall|j: int| 0 <= j < i ==> !(fields[j].id is None && fields[j].type_id == fields[i].type_id),
    ensures
        resolved(fields)[i].id == fields[i].type_id,
{
    lemma_none_before(fields, i, fields[i].type_id);
}

proof fn lemma_none_before(fields: Seq<syntax::Field>, i: int, type_id: Seq<char>)
    requires
        0 <= i <= fields.len(),
        forall|j: int| 0 <= j < i ==> !(fields[j].id is None && fields[j].type_id == type_id),
    ensures
        unnamed_before(fields, i, type_id) == 0,
    decreases i,
{
    if i > 0 {
        lemma_none_before(fields, i - 1, type_id);
    }
}

/// An unnamed field before which `k` unnamed fields of its type stand, with
/// `k` above zero, is named after the type with the numeral of `k` behind it:
/// the second such field gets `1`, the third `2`.
pub proof fn lemma_later_unnamed_are_numbered(fields: Seq<syntax::Field>, i: int)
    requires
        0 <= i < fields.len(),
        fields[i].id is None,
        unnamed_before(fields, i, fields[i].type_id) > 0,
    ensures
        resolved(fields)[i].id == fields[i].type_id + decimal(
            unnamed_before(fields, i, fields[i].type_id),
        ),
{
}

/// The number that a numeral stands for.
pub open spec fn value(numeral: Seq<char>) -> nat
    decreases numeral.len(),
{
    if numeral.len() == 0 {
        0
    } else {
        value(numeral.drop_last()) * 10 + digit_value(numeral.last())
    }
}

/// The number that a digit stands for.
pub open spec fn digit_value(c: char) -> nat {
    if c == '1' {
        1
    } else if c == '2' {
        2
    } else if c == '3' {
        3
    } else if c == '4' {
        4
    } else if c == '5' {
        5
    } else if c == '6' {
        6
    } else if c == '7' {
        7
    } else if c == '8' {
        8
    } else if c == '9' {
        9
    } else {
        0
    }
}

/// A numeral stands for its number, and is not empty.
pub proof fn lemma_decimal_value(n: nat)
    ensures
        value(decimal(n)) == n,
        decimal(n).len() > 0,
    decreases n,
{
    if n < 10 {
        assert(decimal(n).drop_last() =~= Seq::<char>::empty());
        assert(value(decimal(n).drop_last()) == 0);
        assert(digit_value(digit(n)) == n);
    } else {
        lemma_decimal_value(n / 10);
        assert(decimal(n).drop_last() =~= decimal(n / 10));
        assert(digit_value(digit(n % 10)) == n % 10);
    }
}

/// Within one list, no two unnamed fields of one type get the same name.
pub proof fn lemma_generated_names_differ(fields: Seq<syntax::Field>, i: int, j: int)
    requires
        0 <= i < j < fields.len(),
        fields[i].id is None,
        fields[j].id is None,
        fields[i].type_id == fields[j].type_id,
    ensures
        resolved(fields)[i].id != resolved(fields)[j].id,
{
    let t = fields[i].type_id;
    let a = unnamed_before(fields, i, t);
    let b = unnamed_before(fields, j, t);
    lemma_unnamed_before_grows(fields, i + 1, j, t);
    assert(unnamed_before(fields, i + 1, t) == a + 1);
    assert(a < b);
    lemma_decimal_value(a);
    lemma_decimal_value(b);
    let x = generated(t, a);
    let y = generated(t, b);
    if x == y {
        if a == 0 {
            assert(y.len() == t.len() + decimal(b).len());
        } else {
            assert(x.subrange(t.len() as int, x.len() as int) =~= decimal(a));
            assert(y.subrange(t.len() as int, y.len() as int) =~= decimal(b));
        }
    }
}

proof fn lemma_unnamed_before_grows(fields: Seq<syntax::Field>, i: int, j: int, t: Seq<char>)
    requires
        0 <= i <= j,
    ensures
        unnamed_before(fields, i, t) <= unnamed_before(fields, j, t),
    decreases j - i,
{
    if i < j {
        lemma_unnamed_before_grows(fields, i, j - 1, t);
    }
}

/// How many tokens of kind `k` stand among the tokens from position `a` up
/// to position `b`.
pub open spec fn count_between(toks: Seq<Token>, k: TokenKind, a: int, b: int) -> nat
    decreases b - a,
{
    if a >= b {
        0
    } else {
        count_between(toks, k, a, b - 1) + if grammar::kind_at(toks, b - 1) == Some(k) {
            1nat
        } else {
            0nat
        }
    }
}

/// How many `=` stand among the tokens from position `a` up to position `b`.
pub open spec fn equals_between(toks: Seq<Token>, a: int, b: int) -> nat {
    count_between(toks, TokenKind::Equals, a, b)
}

/// The kinds of token that are counted here: the `=`, of which a declaration
/// has one, and the token for a character that starts no token, of which it
/// has none.
pub open spec fn counted(k: TokenKind) -> bool {
    k == TokenKind::Equals || k == TokenKind::Error
}

/// How many tokens of kind `k` a declaration holds.
pub open spec fn in_declaration(k: TokenKind) -> nat {
    if k == TokenKind::Equals {
        1
    } else {
        0
    }
}

/// The tokens from `p` up to `q` lie among the tokens and hold `n` tokens of
/// kind `k`.
pub open spec fn spans(toks: Seq<Token>, k: TokenKind, p: int, q: int, n: nat) -> bool {
    0 <= p <= q <= toks.len() && count_between(toks, k, p, q) == n
}

proof fn lemma_join(toks: Seq<Token>, k: TokenKind, p: int, q: int, r: int)
    requires
        p <= q <= r,
    ensures
        count_between(toks, k, p, r) == count_between(toks, k, p, q) + count_between(
            toks,
            k,
            q,
            r,
        ),
    decreases r - q,
{
    if q < r {
        lemma_join(toks, k, p, q, r - 1);
    }
}

proof fn lemma_one(toks: Seq<Token>, k: TokenKind, p: int)
    ensures
        count_between(toks, k, p, p) == 0,
        count_between(toks, k, p, p + 1) == if grammar::kind_at(toks, p) == Some(k) {
            1nat
        } else {
            0nat
        },
{
    assert(count_between(toks, k, p, p) == 0);
}

proof fn lemma_skip_ws(toks: Seq<Token>, k: TokenKind, p: int)
    requires
        counted(k),
        0 <= p <= toks.len(),
    ensures
        spans(toks, k, p, grammar::skip_ws(toks, p), 0),
{
    lemma_one(toks, k, p);
}

proof fn lemma_more_comments(
    s: Seq<char>,
    toks: Seq<Token>,
    k: TokenKind,
    i: int,
    acc: Seq<Seq<char>>,
)
    requires
        counted(k),
        0 <= i <= toks.len(),
    ensures
        spans(toks, k, i, grammar::more_comments(s, toks, i, acc).0, 0),
    decreases toks.len() - i,
{
    if grammar::kind_at(toks, i) == Some(TokenKind::Whitespace) && grammar::line_breaks(
        grammar::text_at(s, toks, i),
    ) == 1 && grammar::kind_at(toks, i + 1) == Some(TokenKind::Comment) {
        let next = acc.push(grammar::comment_text(grammar::text_at(s, toks, i + 1)));
        lemma_more_comments(s, toks, k, i + 2, next);
        lemma_one(toks, k, i);
        lemma_one(toks, k, i + 1);
        lemma_join(toks, k, i, i + 1, i + 2);
        lemma_join(toks, k, i, i + 2, grammar::more_comments(s, toks, i + 2, next).0);
    } else {
        lemma_one(toks, k, i);
    }
}

proof fn lemma_comments(s: Seq<char>, toks: Seq<Token>, k: TokenKind, p: int)
    requires
        counted(k),
        0 <= p <= toks.len(),
    ensures
        spans(toks, k, p, grammar::comments(s, toks, p).0, 0),
{
    reveal(grammar::comments);
    reveal(grammar::comment_line);
    lemma_one(toks, k, p);
    match grammar::comment_line(s, toks, p) {
        Err(_) => {},
        Ok((i, c)) => {
            lemma_one(toks, k, p + 1);
            lemma_join(toks, k, p, p + 1, p + 2);
            lemma_more_comments(s, toks, k, i, seq![c]);
            lemma_join(toks, k, p, i, grammar::more_comments(s, toks, i, seq![c]).0);
        },
    }
}

proof fn lemma_head(s: Seq<char>, toks: Seq<Token>, k: TokenKind, p: int)
    requires
        counted(k),
        0 <= p <= toks.len(),
    ensures
        spans(toks, k, p, grammar::head(s, toks, p).0, 0),
    decreases toks.len() - p,
{
    let a = grammar::skip_ws(toks, p);
    let b = grammar::comments(s, toks, a).0;
    let c = grammar::skip_ws(toks, b);
    lemma_skip_ws(toks, k, p);
    lemma_comments(s, toks, k, a);
    lemma_skip_ws(toks, k, b);
    lemma_join(toks, k, p, a, b);
    lemma_join(toks, k, p, b, c);
    if grammar::kind_at(toks, c) == Some(TokenKind::Comment) && p < c {
        lemma_head(s, toks, k, c);
        lemma_join(toks, k, p, c, grammar::head(s, toks, c).0);
    }
}

/// No comment stands where a name is expected: every comment block before
/// the name is either the comment of what is named or passed over.
pub proof fn lemma_no_comment_at_the_name(s: Seq<char>, toks: Seq<Token>, p: int)
    requires
        0 <= p <= toks.len(),
    ensures
        grammar::kind_at(toks, grammar::head(s, toks, p).0) != Some(TokenKind::Comment),
    decreases toks.len() - p,
{
    let k = TokenKind::Equals;
    let a = grammar::skip_ws(toks, p);
    let b = grammar::comments(s, toks, a).0;
    let c = grammar::skip_ws(toks, b);
    lemma_skip_ws(toks, k, p);
    lemma_comments(s, toks, k, a);
    lemma_skip_ws(toks, k, b);
    if grammar::kind_at(toks, c) == Some(TokenKind::Comment) {
        if p < c {
            lemma_no_comment_at_the_name(s, toks, c);
        } else {
            assert(a == p && b == p && c == p);
            assert(false) by {
                reveal(grammar::comments);
                reveal(grammar::comment_line);
                lemma_more_comments(s, toks, k, p + 1, seq![Seq::<char>::empty()]);
                if grammar::comment_line(s, toks, p) is Ok {
                    let (i, line) = grammar::comment_line(s, toks, p)->Ok_0;
                    lemma_more_comments(s, toks, k, i, seq![line]);
                }
            }
        }
    }
}

proof fn lemma_char_ms0(s: Seq<char>, toks: Seq<Token>, k: TokenKind, p: int, c: char)
    requires
        counted(k),
        0 <= p <= toks.len(),
        grammar::char_ms0(s, toks, p, c) is Ok,
    ensures
        spans(
            toks,
            k,
            p,
            grammar::char_ms0(s, toks, p, c)->Ok_0,
            if c == '=' {
                in_declaration(k)
            } else {
                0nat
            },
        ),
        p < grammar::char_ms0(s, toks, p, c)->Ok_0,
{
    let a = grammar::skip_ws(toks, p);
    let b = grammar::skip_ws(toks, a + 1);
    lemma_skip_ws(toks, k, p);
    lemma_one(toks, k, a);
    lemma_skip_ws(toks, k, a + 1);
    lemma_join(toks, k, p, a, a + 1);
    lemma_join(toks, k, p, a + 1, b);
}

proof fn lemma_field(s: Seq<char>, toks: Seq<Token>, k: TokenKind, p: int)
    requires
        counted(k),
        0 <= p <= toks.len(),
        grammar::field(s, toks, p) is Ok,
    ensures
        spans(toks, k, p, grammar::field(s, toks, p)->Ok_0.0, 0),
        p < grammar::field(s, toks, p)->Ok_0.0,
{
    reveal(grammar::field);
    lemma_one(toks, k, p);
    lemma_one(toks, k, p + 1);
    lemma_one(toks, k, p + 2);
    lemma_one(toks, k, p + 3);
    lemma_join(toks, k, p, p + 1, p + 2);
    lemma_join(toks, k, p, p + 2, p + 3);
    lemma_join(toks, k, p, p + 3, p + 4);
}

proof fn lemma_more_fields(
    s: Seq<char>,
    toks: Seq<Token>,
    k: TokenKind,
    i: int,
    acc: Seq<syntax::Field>,
)
    requires
        counted(k),
        0 <= i <= toks.len(),
    ensures
        spans(toks, k, i, grammar::more_fields(s, toks, i, acc).0, 0),
    decreases toks.len() - i,
{
    lemma_one(toks, k, i);
    match grammar::char_ms0(s, toks, i, ',') {
        Err(_) => {},
        Ok(j) => {
            lemma_char_ms0(s, toks, k, i, ',');
            match grammar::field(s, toks, j) {
                Err(_) => {},
                Ok((next, f)) => {
                    lemma_field(s, toks, k, j);
                    lemma_join(toks, k, i, j, next);
                    lemma_more_fields(s, toks, k, next, acc.push(f));
                    lemma_join(
                        toks,
                        k,
                        i,
                        next,
                        grammar::more_fields(s, toks, next, acc.push(f)).0,
                    );
                },
            }
        },
    }
}

proof fn lemma_fields(s: Seq<char>, toks: Seq<Token>, k: TokenKind, p: int)
    requires
        counted(k),
        0 <= p <= toks.len(),
        grammar::fields(s, toks, p) is Ok,
    ensures
        spans(toks, k, p, grammar::fields(s, toks, p)->Ok_0.0, 0),
        p < grammar::fields(s, toks, p)->Ok_0.0,
{
    reveal(grammar::fields);
    let q1 = grammar::char_ms0(s, toks, p, '(')->Ok_0;
    lemma_char_ms0(s, toks, k, p, '(');
    let (next, f) = grammar::field(s, toks, q1)->Ok_0;
    lemma_field(s, toks, k, q1);
    lemma_more_fields(s, toks, k, next, seq![f]);
    let i = grammar::more_fields(s, toks, next, seq![f]).0;
    lemma_join(toks, k, q1, next, i);
    lemma_char_ms0(s, toks, k, i, ')');
    let q3 = grammar::char_ms0(s, toks, i, ')')->Ok_0;
    lemma_join(toks, k, p, q1, i);
    lemma_join(toks, k, p, i, q3);
}

proof fn lemma_more_fields_keeps(s: Seq<char>, toks: Seq<Token>, i: int, acc: Seq<syntax::Field>)
    ensures
        grammar::more_fields(s, toks, i, acc).1.len() >= acc.len(),
    decreases toks.len() - i,
{
    match grammar::char_ms0(s, toks, i, ',') {
        Err(_) => {},
        Ok(j) => match grammar::field(s, toks, j) {
            Err(_) => {},
            Ok((next, f)) => {
                if i < next <= toks.len() {
                    lemma_more_fields_keeps(s, toks, next, acc.push(f));
                }
            },
        },
    }
}

/// A list of fields in parentheses is never empty: what is read between the
/// parentheses holds one field at least, and `()` cannot be read.
pub proof fn lemma_fields_are_never_empty(s: Seq<char>, toks: Seq<Token>, p: int)
    ensures
        grammar::fields(s, toks, p) is Ok ==> grammar::fields(s, toks, p)->Ok_0.1.len() >= 1,
        grammar::kind_at(toks, grammar::skip_ws(toks, p)) == Some(TokenKind::LParen)
            && grammar::kind_at(
            toks,
            grammar::skip_ws(toks, grammar::skip_ws(toks, p) + 1),
        ) == Some(TokenKind::RParen) ==> grammar::fields(s, toks, p) is Err,
{
    reveal(grammar::fields);
    reveal(grammar::field);
    match grammar::char_ms0(s, toks, p, '(') {
        Err(_) => {},
        Ok(q1) => match grammar::field(s, toks, q1) {
            Err(_) => {},
            Ok((next, f)) => {
                lemma_more_fields_keeps(s, toks, next, seq![f]);
            },
        },
    }
}

/// What a declaration lists in parentheses is never empty: a product type
/// has one field at least, and so has an attribute list.
pub proof fn lemma_declared_lists_are_never_empty(s: Seq<char>, toks: Seq<Token>, p: int)
    requires
        grammar::ty(s, toks, p) is Ok,
    ensures
        match grammar::ty(s, toks, p)->Ok_0.1 {
            syntax::Type::ProdType(t) => t.fields.len() >= 1,
            syntax::Type::SumType(t) => t.constructors.len() >= 1 && (t.attrs matches Some(fs)
                ==> fs.len() >= 1),
        },
{
    reveal(grammar::ty);
    reveal(grammar::prod_type);
    reveal(grammar::sum_type);
    reveal(grammar::constructors);
    reveal(grammar::attrs);
    match grammar::type_head(s, toks, p) {
        Err(_) => {},
        Ok((q3, _, _)) => {
            lemma_fields_are_never_empty(s, toks, q3);
            match grammar::constructor(s, toks, q3) {
                Err(_) => {},
                Ok((next, c)) => {
                    lemma_more_constructors_keeps(s, toks, next, seq![c]);
                    let q4 = grammar::more_constructors(s, toks, next, seq![c]).0;
                    lemma_fields_are_never_empty(s, toks, q4 + 1);
                },
            }
        },
    }
}

proof fn lemma_more_constructors_keeps(
    s: Seq<char>,
    toks: Seq<Token>,
    i: int,
    acc: Seq<syntax::Constr>,
)
    ensures
        grammar::more_constructors(s, toks, i, acc).1.len() >= acc.len(),
    decreases toks.len() - i,
{
    match grammar::char_ms0(s, toks, i, '|') {
        Err(_) => {},
        Ok(j) => match grammar::constructor(s, toks, j) {
            Err(_) => {},
            Ok((next, c)) => {
                if i < next <= toks.len() {
                    lemma_more_constructors_keeps(s, toks, next, acc.push(c));
                }
            },
        },
    }
}

proof fn lemma_constructor(s: Seq<char>, toks: Seq<Token>, k: TokenKind, p: int)
    requires
        counted(k),
        0 <= p <= toks.len(),
        grammar::constructor(s, toks, p) is Ok,
    ensures
        spans(toks, k, p, grammar::constructor(s, toks, p)->Ok_0.0, 0),
        p < grammar::constructor(s, toks, p)->Ok_0.0,
{
    reveal(grammar::constructor);
    let h = grammar::head(s, toks, p).0;
    lemma_head(s, toks, k, p);
    lemma_one(toks, k, h);
    let q3 = grammar::skip_ws(toks, h + 1);
    lemma_skip_ws(toks, k, h + 1);
    lemma_join(toks, k, p, h, h + 1);
    lemma_join(toks, k, p, h + 1, q3);
    if grammar::kind_at(toks, q3) == Some(TokenKind::LParen) {
        lemma_fields(s, toks, k, q3);
        lemma_join(toks, k, p, q3, grammar::fields(s, toks, q3)->Ok_0.0);
    }
}

proof fn lemma_more_constructors(
    s: Seq<char>,
    toks: Seq<Token>,
    k: TokenKind,
    i: int,
    acc: Seq<syntax::Constr>,
)
    requires
        counted(k),
        0 <= i <= toks.len(),
    ensures
        spans(toks, k, i, grammar::more_constructors(s, toks, i, acc).0, 0),
    decreases toks.len() - i,
{
    lemma_one(toks, k, i);
    match grammar::char_ms0(s, toks, i, '|') {
        Err(_) => {},
        Ok(j) => {
            lemma_char_ms0(s, toks, k, i, '|');
            match grammar::constructor(s, toks, j) {
                Err(_) => {},
                Ok((next, c)) => {
                    lemma_constructor(s, toks, k, j);
                    lemma_join(toks, k, i, j, next);
                    lemma_more_constructors(s, toks, k, next, acc.push(c));
                    lemma_join(
                        toks,
                        k,
                        i,
                        next,
                        grammar::more_constructors(s, toks, next, acc.push(c)).0,
                    );
                },
            }
        },
    }
}

proof fn lemma_type_head(s: Seq<char>, toks: Seq<Token>, k: TokenKind, p: int)
    requires
        counted(k),
        0 <= p <= toks.len(),
        grammar::type_head(s, toks, p) is Ok,
    ensures
        spans(toks, k, p, grammar::type_head(s, toks, p)->Ok_0.0, in_declaration(k)),
        p < grammar::type_head(s, toks, p)->Ok_0.0,
{
    reveal(grammar::type_head);
    let h = grammar::head(s, toks, p).0;
    lemma_head(s, toks, k, p);
    lemma_one(toks, k, h);
    lemma_join(toks, k, p, h, h + 1);
    lemma_char_ms0(s, toks, k, h + 1, '=');
    lemma_join(toks, k, p, h + 1, grammar::char_ms0(s, toks, h + 1, '=')->Ok_0);
}

/// A declaration that can be read holds exactly one `=`, and no token for a
/// character that starts no token.
pub proof fn lemma_declaration_has_one_equals_sign(
    s: Seq<char>,
    toks: Seq<Token>,
    k: TokenKind,
    p: int,
)
    requires
        counted(k),
        0 <= p <= toks.len(),
        grammar::ty(s, toks, p) is Ok,
    ensures
        spans(toks, k, p, grammar::ty(s, toks, p)->Ok_0.0, in_declaration(k)),
        p < grammar::ty(s, toks, p)->Ok_0.0,
{
    reveal(grammar::ty);
    reveal(grammar::prod_type);
    reveal(grammar::sum_type);
    reveal(grammar::constructors);
    reveal(grammar::attrs);
    lemma_type_head(s, toks, k, p);
    let q3 = grammar::type_head(s, toks, p)->Ok_0.0;
    if grammar::is_product(s, toks, p) {
        lemma_fields(s, toks, k, q3);
        lemma_join(toks, k, p, q3, grammar::fields(s, toks, q3)->Ok_0.0);
    } else {
        let first = grammar::constructor(s, toks, q3)->Ok_0;
        lemma_constructor(s, toks, k, q3);
        lemma_more_constructors(s, toks, k, first.0, seq![first.1]);
        let q4 = grammar::more_constructors(s, toks, first.0, seq![first.1]).0;
        lemma_join(toks, k, q3, first.0, q4);
        lemma_join(toks, k, p, q3, q4);
        if grammar::attrs(s, toks, q4) is Ok {
            lemma_one(toks, k, q4);
            lemma_fields(s, toks, k, q4 + 1);
            let q5 = grammar::fields(s, toks, q4 + 1)->Ok_0.0;
            lemma_join(toks, k, q4, q4 + 1, q5);
            lemma_join(toks, k, p, q4, q5);
        }
    }
}

proof fn lemma_recover(toks: Seq<Token>, p: int)
    requires
        0 <= p <= toks.len(),
    ensures
        p <= grammar::recover(toks, p) <= toks.len(),
        grammar::recover(toks, p) < toks.len() ==> grammar::declaration_starts(
            toks,
            grammar::recover(toks, p),
        ),
    decreases toks.len() - p,
{
    if p < toks.len() && !grammar::declaration_starts(toks, p) {
        lemma_recover(toks, p + 1);
    }
}

proof fn lemma_block_start(s: Seq<char>, toks: Seq<Token>, c: int, low: int)
    requires
        low <= c,
        grammar::kind_at(toks, c) == Some(TokenKind::Comment),
    ensures
        low <= grammar::block_start(s, toks, c, low) <= c,
        grammar::kind_at(toks, grammar::block_start(s, toks, c, low)) == Some(TokenKind::Comment),
    decreases c - low,
{
    if low <= c - 2 && grammar::kind_at(toks, c - 2) == Some(TokenKind::Comment)
        && grammar::kind_at(toks, c - 1) == Some(TokenKind::Whitespace) && grammar::line_breaks(
        grammar::text_at(s, toks, c - 1),
    ) == 1 {
        lemma_block_start(s, toks, c - 2, low);
    }
}

proof fn lemma_resume(s: Seq<char>, toks: Seq<Token>, q: int, low: int)
    requires
        low <= q,
    ensures
        low <= grammar::resume(s, toks, q, low) <= q,
        grammar::resume(s, toks, q, low) == q || grammar::kind_at(
            toks,
            grammar::resume(s, toks, q, low),
        ) == Some(TokenKind::Comment),
{
    if low <= q - 2 && grammar::kind_at(toks, q - 1) == Some(TokenKind::Whitespace)
        && grammar::kind_at(toks, q - 2) == Some(TokenKind::Comment) {
        lemma_block_start(s, toks, q - 2, low);
    }
}

proof fn lemma_declarations(
    s: Seq<char>,
    toks: Seq<Token>,
    k: TokenKind,
    p: int,
    types: Seq<syntax::Type>,
    diags: Seq<grammar::Stack>,
)
    requires
        counted(k),
        0 <= p <= toks.len(),
    ensures
        grammar::declarations(s, toks, p, types, diags).1.len() >= diags.len(),
        grammar::declarations(s, toks, p, types, diags).1.len() == diags.len() ==> count_between(
            toks,
            k,
            p,
            toks.len() as int,
        ) == if k == TokenKind::Equals {
            grammar::declarations(s, toks, p, types, diags).0.len() - types.len()
        } else {
            0
        },
    decreases toks.len() - p,
{
    let start = grammar::skip_ws(toks, p);
    let h = grammar::head(s, toks, start).0;
    lemma_skip_ws(toks, k, p);
    lemma_head(s, toks, k, start);
    lemma_join(toks, k, p, start, h);
    if h < toks.len() {
        match grammar::ty(s, toks, start) {
            Ok((q, t)) => {
                lemma_declaration_has_one_equals_sign(s, toks, k, start);
                lemma_join(toks, k, p, start, q);
                lemma_declarations(s, toks, k, q, types.push(t), diags);
                lemma_join(toks, k, p, q, toks.len() as int);
            },
            Err(e) => {
                lemma_recover(toks, h + 1);
                lemma_resume(s, toks, grammar::recover(toks, h + 1), h + 1);
                let q = grammar::resume(s, toks, grammar::recover(toks, h + 1), h + 1);
                lemma_declarations(
                    s,
                    toks,
                    k,
                    q,
                    types,
                    diags.push(grammar::reported(e, grammar::offset_at(s, toks, h), types.len() == 0)),
                );
            },
        }
    }
}

/// A text without fault has as many declarations as it has `=` signs, and so
/// has its model.
pub proof fn lemma_one_declaration_per_equals_sign(s: Seq<char>)
    requires
        grammar::parse(s).1.len() == 0,
    ensures
        grammar::parse(s).0.types.len() == equals_between(lex(s), 0, lex(s).len() as int),
        model_of(grammar::parse(s).0).types.len() == equals_between(
            lex(s),
            0,
            lex(s).len() as int,
        ),
{
    let toks = lex(s);
    let k = TokenKind::Equals;
    reveal(grammar::root_comments);
    let a = grammar::skip_ws(toks, 0);
    lemma_skip_ws(toks, k, 0);
    lemma_comments(s, toks, k, a);
    let p = grammar::root_comments(s, toks).0;
    lemma_join(toks, k, 0, a, grammar::comments(s, toks, a).0);
    assert(spans(toks, k, 0, p, 0));
    lemma_declarations(s, toks, k, p, Seq::empty(), Seq::empty());
    lemma_join(toks, k, 0, p, toks.len() as int);
}

proof fn lemma_none_counted(toks: Seq<Token>, k: TokenKind, a: int, b: int, i: int)
    requires
        0 <= a <= i < b <= toks.len(),
        count_between(toks, k, a, b) == 0,
    ensures
        toks[i].kind != k,
    decreases b - a,
{
    if i < b - 1 {
        lemma_none_counted(toks, k, a, b - 1, i);
    }
}

/// A text without fault holds no character that starts no token: every such
/// character, unless it stands in a comment, leaves a diagnostic.
pub proof fn lemma_no_fault_no_error_token(s: Seq<char>, i: int)
    requires
        grammar::parse(s).1.len() == 0,
        0 <= i < lex(s).len(),
    ensures
        lex(s)[i].kind != TokenKind::Error,
{
    let toks = lex(s);
    let k = TokenKind::Error;
    reveal(grammar::root_comments);
    let a = grammar::skip_ws(toks, 0);
    lemma_skip_ws(toks, k, 0);
    lemma_comments(s, toks, k, a);
    let p = grammar::root_comments(s, toks).0;
    lemma_join(toks, k, 0, a, grammar::comments(s, toks, a).0);
    assert(spans(toks, k, 0, p, 0));
    lemma_declarations(s, toks, k, p, Seq::empty(), Seq::empty());
    lemma_join(toks, k, 0, p, toks.len() as int);
    lemma_none_counted(toks, k, 0, toks.len() as int, i);
}

/// What a comment says is what stands behind its `//`, without the blank
/// that may come first; no more than that one blank is taken away.
pub proof fn lemma_comment_text(body: Seq<char>)
    ensures
        grammar::comment_text(seq!['/', '/'] + body) == if body.len() > 0 && body[0] == ' ' {
            body.drop_first()
        } else {
            body
        },
{
    let t = seq!['/', '/'] + body;
    if body.len() > 0 {
        assert(t[2] == body[0]);
    }
    assert(t.subrange(2, t.len() as int) =~= body);
    if body.len() > 0 {
        assert(t.subrange(3, t.len() as int) =~= body.drop_first());
    }
}

/// Whether the comment at `c` stands on the line directly below another
/// comment.
pub open spec fn continues_block(s: Seq<char>, toks: Seq<Token>, c: int) -> bool {
    grammar::kind_at(toks, c - 2) == Some(TokenKind::Comment) && grammar::kind_at(toks, c - 1)
        == Some(TokenKind::Whitespace) && grammar::line_breaks(grammar::text_at(s, toks, c - 1))
        == 1 && grammar::kind_at(toks, c) == Some(TokenKind::Comment)
}

/// Where line `k` of a comment block stands whose first comment stands at
/// `first`: a comment and the whitespace behind it make two tokens.
pub open spec fn line_start(first: int, k: int) -> int {
    first + 2 * k
}

/// Whether the lines that `more_comments` puts behind `acc` from `i` on are
/// what the comments below one another say, in source order, and all of them.
pub open spec fn in_order_from(s: Seq<char>, toks: Seq<Token>, i: int, acc: Seq<Seq<char>>) -> bool {
    let end = grammar::more_comments(s, toks, i, acc).0;
    let lines = grammar::more_comments(s, toks, i, acc).1;
    &&& lines.len() >= acc.len()
    &&& lines.take(acc.len() as int) == acc
    &&& end == i + 2 * (lines.len() - acc.len())
    &&& (forall|k: int|
        0 <= k < lines.len() - acc.len() ==> continues_block(
            s,
            toks,
            #[trigger] line_start(i + 1, k),
        ) && lines[acc.len() + k] == grammar::comment_text(
            grammar::text_at(s, toks, line_start(i + 1, k)),
        ))
    &&& !continues_block(s, toks, end + 1)
}

proof fn lemma_more_comments_in_order(
    s: Seq<char>,
    toks: Seq<Token>,
    i: int,
    acc: Seq<Seq<char>>,
)
    requires
        1 <= i <= toks.len(),
        grammar::kind_at(toks, i - 1) == Some(TokenKind::Comment),
    ensures
        in_order_from(s, toks, i, acc),
    decreases toks.len() - i,
{
    if grammar::kind_at(toks, i) == Some(TokenKind::Whitespace) && grammar::line_breaks(
        grammar::text_at(s, toks, i),
    ) == 1 && grammar::kind_at(toks, i + 1) == Some(TokenKind::Comment) {
        let next = acc.push(grammar::comment_text(grammar::text_at(s, toks, i + 1)));
        lemma_more_comments_in_order(s, toks, i + 2, next);
        let lines = grammar::more_comments(s, toks, i, acc).1;
        assert(lines == grammar::more_comments(s, toks, i + 2, next).1);
        assert(lines.take(acc.len() as int) =~= acc) by {
            assert(lines.take(acc.len() as int) =~= lines.take(next.len() as int).take(
                acc.len() as int,
            ));
        }
        assert forall|k: int| 0 <= k < lines.len() - acc.len() implies continues_block(
            s,
            toks,
            #[trigger] line_start(i + 1, k),
        ) && lines[acc.len() + k] == grammar::comment_text(
            grammar::text_at(s, toks, line_start(i + 1, k)),
        ) by {
            if k == 0 {
                assert(lines[acc.len() as int] == lines.take(next.len() as int)[acc.len() as int]);
            } else {
                assert(line_start(i + 3, k - 1) == line_start(i + 1, k));
                assert(next.len() + (k - 1) == acc.len() + k);
            }
        }
    } else {
        assert(acc.take(acc.len() as int) =~= acc);
    }
}

/// The lines of a comment block are what its comments say, in source order.
/// The block starts with the comment at `p`, or with the one behind blanks at
/// `p`; it goes on for as long as the next line holds a comment and nothing
/// else; and it holds no line beyond that.
pub proof fn lemma_comment_block_in_source_order(s: Seq<char>, toks: Seq<Token>, p: int)
    requires
        0 <= p <= toks.len(),
    ensures
        ({
            let (end, lines) = grammar::comments(s, toks, p);
            let first = if grammar::kind_at(toks, p) == Some(TokenKind::Whitespace)
                && grammar::line_breaks(grammar::text_at(s, toks, p)) == 0 {
                p + 1
            } else {
                p
            };
            let n = lines.len() as int;
            &&& n == 0 <==> grammar::kind_at(toks, first) != Some(TokenKind::Comment)
            &&& n == 0 ==> end == p
            &&& n > 0 ==> end == first + 2 * n - 1
            &&& forall|k: int|
                0 <= k < n ==> (#[trigger] lines[k]) == grammar::comment_text(
                    grammar::text_at(s, toks, first + 2 * k),
                )
            &&& forall|k: int|
                0 <= k < n ==> grammar::kind_at(toks, #[trigger] line_start(first, k)) == Some(
                    TokenKind::Comment,
                )
            &&& forall|k: int| 0 < k < n ==> continues_block(s, toks, #[trigger] line_start(first, k))
            &&& n > 0 ==> !continues_block(s, toks, first + 2 * n)
        }),
{
    reveal(grammar::comments);
    reveal(grammar::comment_line);
    match grammar::comment_line(s, toks, p) {
        Err(_) => {},
        Ok((i, c)) => {
            let first = i - 1;
            lemma_more_comments_in_order(s, toks, i, seq![c]);
            let lines = grammar::more_comments(s, toks, i, seq![c]).1;
            let n = lines.len() as int;
            assert(lines[0] == lines.take(1)[0]);
            assert forall|k: int| 0 <= k < n implies (#[trigger] lines[k]) == grammar::comment_text(
                grammar::text_at(s, toks, first + 2 * k),
            ) by {
                if k > 0 {
                    assert(line_start(i + 1, k - 1) == first + 2 * k);
                }
            }
            assert forall|k: int| 0 <= k < n implies grammar::kind_at(
                toks,
                #[trigger] line_start(first, k),
            ) == Some(TokenKind::Comment) by {
                if k > 0 {
                    assert(line_start(i + 1, k - 1) == line_start(first, k));
                }
            }
            assert forall|k: int| 0 < k < n implies continues_block(
                s,
                toks,
                #[trigger] line_start(first, k),
            ) by {
                assert(line_start(i + 1, k - 1) == line_start(first, k));
            }
        },
    }
}

/// The comment of a declaration is the last comment block above its name.
pub proof fn lemma_declaration_takes_the_block_above(s: Seq<char>, toks: Seq<Token>, p: int)
    requires
        grammar::ty(s, toks, p) is Ok,
    ensures
        match grammar::ty(s, toks, p)->Ok_0.1 {
            syntax::Type::SumType(t) => t.comments,
            syntax::Type::ProdType(t) => t.comments,
        } == grammar::head(s, toks, p).1,
{
    reveal(grammar::ty);
    reveal(grammar::prod_type);
    reveal(grammar::sum_type);
    reveal(grammar::type_head);
}

/// Where a comment block stands directly above a name and no comment block
/// follows it, the block is the comment of what is named.
pub proof fn lemma_block_above_the_name(s: Seq<char>, toks: Seq<Token>, p: int)
    requires
        grammar::kind_at(toks, grammar::skip_ws(toks, grammar::comments(s, toks, p).0)) != Some(
            TokenKind::Comment,
        ),
        grammar::kind_at(toks, p) != Some(TokenKind::Whitespace),
    ensures
        grammar::head(s, toks, p) == (
            grammar::skip_ws(toks, grammar::comments(s, toks, p).0),
            grammar::comments(s, toks, p).1,
        ),
{
}

/// Reading on takes nothing back: the declarations read before a position
/// stay in the tree, in their order, and the diagnostics given before it stay
/// among the diagnostics, whatever stands behind the position.
pub proof fn lemma_reading_only_adds(
    s: Seq<char>,
    toks: Seq<Token>,
    p: int,
    types: Seq<syntax::Type>,
    diags: Seq<grammar::Stack>,
)
    ensures
        grammar::declarations(s, toks, p, types, diags).0.len() >= types.len(),
        grammar::declarations(s, toks, p, types, diags).0.take(types.len() as int) == types,
        grammar::declarations(s, toks, p, types, diags).1.len() >= diags.len(),
        grammar::declarations(s, toks, p, types, diags).1.take(diags.len() as int) == diags,
    decreases toks.len() - p,
{
    let start = grammar::skip_ws(toks, p);
    let h = grammar::head(s, toks, start).0;
    let all = grammar::declarations(s, toks, p, types, diags);
    if 0 <= p && h < toks.len() {
        match grammar::ty(s, toks, start) {
            Ok((q, t)) => {
                if p < q <= toks.len() {
                    lemma_reading_only_adds(s, toks, q, types.push(t), diags);
                    assert(all.0.take(types.len() as int) =~= all.0.take(types.len() as int + 1).take(
                        types.len() as int,
                    ));
                    assert(types.push(t).take(types.len() as int) =~= types);
                }
            },
            Err(e) => {
                let q = grammar::resume(s, toks, grammar::recover(toks, h + 1), h + 1);
                if p < q <= toks.len() {
                    let said = diags.push(
                        grammar::reported(e, grammar::offset_at(s, toks, h), types.len() == 0),
                    );
                    lemma_reading_only_adds(s, toks, q, types, said);
                    assert(all.1.take(diags.len() as int) =~= all.1.take(diags.len() as int + 1).take(
                        diags.len() as int,
                    ));
                    assert(said.take(diags.len() as int) =~= diags);
                }
            },
        }
    }
    assert(types.take(types.len() as int) =~= types);
    assert(diags.take(diags.len() as int) =~= diags);
}

/// Where reading goes on after the declaration that was expected at `h`
/// could not be read: at the next declaration that starts behind `h`, with
/// the comment block above it.
pub open spec fn next_start(s: Seq<char>, toks: Seq<Token>, h: int) -> int {
    grammar::resume(s, toks, grammar::recover(toks, h + 1), h + 1)
}

/// A fault does not hide what follows it. Where a declaration cannot be read,
/// it leaves a diagnostic; and if, at the place where reading goes on, a
/// declaration can be read, that declaration is the next one of the tree.
pub proof fn lemma_fault_does_not_hide_the_next_declaration(
    s: Seq<char>,
    toks: Seq<Token>,
    p: int,
    types: Seq<syntax::Type>,
    diags: Seq<grammar::Stack>,
)
    requires
        0 <= p <= toks.len(),
        grammar::head(s, toks, grammar::skip_ws(toks, p)).0 < toks.len(),
        grammar::ty(s, toks, grammar::skip_ws(toks, p)) is Err,
        grammar::ty(
            s,
            toks,
            next_start(s, toks, grammar::head(s, toks, grammar::skip_ws(toks, p)).0),
        ) is Ok,
    ensures
        ({
            let h = grammar::head(s, toks, grammar::skip_ws(toks, p)).0;
            let q = next_start(s, toks, h);
            let all = grammar::declarations(s, toks, p, types, diags);
            &&& all.1.len() > diags.len()
            &&& all.1[diags.len() as int] == grammar::reported(
                grammar::ty(s, toks, grammar::skip_ws(toks, p))->Err_0,
                grammar::offset_at(s, toks, h),
                types.len() == 0,
            )
            &&& all.0.len() > types.len()
            &&& all.0[types.len() as int] == grammar::ty(s, toks, q)->Ok_0.1
        }),
{
    let k = TokenKind::Equals;
    let start = grammar::skip_ws(toks, p);
    let h = grammar::head(s, toks, start).0;
    lemma_skip_ws(toks, k, p);
    lemma_head(s, toks, k, start);
    let found = grammar::recover(toks, h + 1);
    lemma_recover(toks, h + 1);
    lemma_resume(s, toks, found, h + 1);
    let q = next_start(s, toks, h);
    let e = grammar::ty(s, toks, start)->Err_0;
    let said = diags.push(grammar::reported(e, grammar::offset_at(s, toks, h), types.len() == 0));
    assert(grammar::declarations(s, toks, p, types, diags) == grammar::declarations(
        s,
        toks,
        q,
        types,
        said,
    ));
    lemma_head(s, toks, k, q);
    assert(grammar::head(s, toks, q).0 < toks.len()) by {
        reveal(grammar::ty);
        reveal(grammar::prod_type);
        reveal(grammar::sum_type);
        reveal(grammar::type_head);
    }
    assert(grammar::skip_ws(toks, q) == q);
    lemma_declaration_has_one_equals_sign(s, toks, k, q);
    let (r, t) = grammar::ty(s, toks, q)->Ok_0;
    assert(grammar::declarations(s, toks, q, types, said) == grammar::declarations(
        s,
        toks,
        r,
        types.push(t),
        said,
    ));
    lemma_reading_only_adds(s, toks, r, types.push(t), said);
    let all = grammar::declarations(s, toks, r, types.push(t), said);
    assert(all.0[types.len() as int] == all.0.take(types.len() as int + 1)[types.len() as int]);
    assert(all.1[diags.len() as int] == all.1.take(diags.len() as int + 1)[diags.len() as int]);
}

/// Tokens are as long as they can be: behind whitespace stands no whitespace
/// character, behind a word no character that a word can hold, and behind a
/// comment nothing but the end of its line.
pub proof fn lemma_tokens_are_maximal(s: Seq<char>, i: int)
    requires
        s.len() <= usize::MAX,
        0 <= i < lex(s).len(),
        lex(s)[i].end < s.len(),
    ensures
        lex(s)[i].kind == TokenKind::Whitespace ==> !in_class(
            CharClass::Space,
            s[lex(s)[i].end as int],
        ),
        lex(s)[i].kind == TokenKind::TypeIdent || lex(s)[i].kind == TokenKind::ConstrIdent
            || lex(s)[i].kind == TokenKind::Attributes ==> !in_class(
            CharClass::Word,
            s[lex(s)[i].end as int],
        ),
        lex(s)[i].kind == TokenKind::Comment ==> !in_class(CharClass::Line, s[lex(s)[i].end as int]),
{
    let t = lex(s)[i];
    lemma_lex_token_at(s, 0, i);
    lemma_lex_tiles(s, 0);
    lemma_tiles_bounds(lex(s), 0, s.len() as int, i);
    lemma_run_end(s, CharClass::Space, t.start + 1);
    lemma_run_end(s, CharClass::Word, t.start + 1);
    if t.start + 2 <= s.len() {
        lemma_run_end(s, CharClass::Line, t.start + 2);
    }
}

/// Whitespace is merged: no two tokens of whitespace stand side by side.
pub proof fn lemma_whitespace_is_merged(s: Seq<char>, i: int)
    requires
        s.len() <= usize::MAX,
        0 <= i,
        i + 1 < lex(s).len(),
        lex(s)[i].kind == TokenKind::Whitespace,
    ensures
        lex(s)[i + 1].kind != TokenKind::Whitespace,
{
    lemma_lex_tiles(s, 0);
    lemma_tiles_bounds(lex(s), 0, s.len() as int, i);
    lemma_tiles_bounds(lex(s), 0, s.len() as int, i + 1);
    assert(lex(s)[i].end == lex(s)[i + 1].start);
    lemma_tokens_are_maximal(s, i);
    lemma_lex_token_at(s, 0, i + 1);
}

/// The keyword is recognised as a whole word only: a token is the keyword
/// exactly if its text is the word `attributes`.
pub proof fn lemma_keyword_is_a_whole_word(s: Seq<char>, i: int)
    requires
        s.len() <= usize::MAX,
        0 <= i < lex(s).len(),
    ensures
        lex(s)[i].kind == TokenKind::Attributes <==> text_of(s, lex(s)[i]) == keyword(),
{
    let t = lex(s)[i];
    lemma_lex_token_at(s, 0, i);
    lemma_lex_tiles(s, 0);
    lemma_tiles_bounds(lex(s), 0, s.len() as int, i);
    lemma_run_end(s, CharClass::Space, t.start + 1);
    lemma_run_end(s, CharClass::Word, t.start + 1);
    if t.start + 2 <= s.len() {
        lemma_run_end(s, CharClass::Line, t.start + 2);
    }
    if text_of(s, t) == keyword() {
        assert(text_of(s, t)[0] == 'a');
        assert(s[t.start as int] == 'a');
    }
}

/// Words are told apart by their first letter, and go on in letters `a` to
/// `z` and `A` to `Z`, digits and `_`. A token is a type name or the keyword
/// exactly if it begins with a lowercase letter; it is a constructor name
/// exactly if it begins with an uppercase letter.
pub proof fn lemma_words_begin_with_letters(s: Seq<char>, i: int)
    requires
        s.len() <= usize::MAX,
        0 <= i < lex(s).len(),
    ensures
        (lex(s)[i].kind == TokenKind::TypeIdent || lex(s)[i].kind == TokenKind::Attributes)
            <==> is_lower(s[lex(s)[i].start as int]),
        lex(s)[i].kind == TokenKind::ConstrIdent <==> is_upper(s[lex(s)[i].start as int])
            && !is_lower(s[lex(s)[i].start as int]),
        grammar::is_word_kind(Some(lex(s)[i].kind)) ==> forall|j: int|
            lex(s)[i].start < j < lex(s)[i].end ==> is_word(#[trigger] s[j]),
{
    let t = lex(s)[i];
    lemma_lex_token_at(s, 0, i);
    lemma_lex_tiles(s, 0);
    lemma_tiles_bounds(lex(s), 0, s.len() as int, i);
    lemma_run_end(s, CharClass::Word, t.start + 1);
}

} // verus!
