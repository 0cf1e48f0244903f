//! The grammar, as functions from a token position to what is read there.
//!
//! ```text
//! Root         := (CommentBlock BlankLine)? Type*
//! Type         := ProdType | SumType
//! ProdType     := CommentBlock TypeId '=' Fields
//! SumType      := CommentBlock TypeId '=' Constructors Attrs?
//! Attrs        := 'attributes' Fields
//! Constructors := Constructor ('|' Constructor)*
//! Constructor  := CommentBlock ConstrId Fields?
//! Fields       := '(' Field (',' Field)* ')'
//! Field        := TypeId ('*' | '?')? Id?
//! CommentBlock := (Comment on a line of its own)*
//! ```
//!
//! Whitespace may stand between the parts of a production. A comment block
//! belongs to the declaration or constructor whose name follows it; a block
//! that another block follows belongs to nothing and is passed over.
//!
//! Every function takes the characters of the text, its tokens and a position
//! among the tokens. A production yields either the position behind what it
//! read together with the value read, or the entries of a diagnostic. A
//! production reads from its position on or fails there. Only the search for
//! the place to go on behind a fault looks back, for the comment above the
//! next declaration.

use vstd::prelude::*;
use crate::diagnostics::{with_context, Code, Kind, Message};
use crate::lexer::{lex, punctuation, text_of, Token, TokenKind};
use crate::model::Arity;
use crate::syntax::{Constr, Field, ProdType, Root, SumType, Type};

verus! {

/// The entries of a diagnostic, the innermost first.
pub type Stack = Seq<(usize, Kind)>;

/// The kind of the token at `p`, if there is one.
pub open spec fn kind_at(toks: Seq<Token>, p: int) -> Option<TokenKind> {
    if 0 <= p < toks.len() {
        Some(toks[p].kind)
    } else {
        None
    }
}

/// The character position at which the token at `p` starts; behind the last
/// token, the end of the text.
pub open spec fn offset_at(s: Seq<char>, toks: Seq<Token>, p: int) -> usize {
    if 0 <= p < toks.len() {
        toks[p].start
    } else {
        s.len() as usize
    }
}

/// The text of the token at `p`.
pub open spec fn text_at(s: Seq<char>, toks: Seq<Token>, p: int) -> Seq<char> {
    text_of(s, toks[p])
}

/// The position behind the whitespace at `p`, if there is any.
pub open spec fn skip_ws(toks: Seq<Token>, p: int) -> int {
    if kind_at(toks, p) == Some(TokenKind::Whitespace) {
        p + 1
    } else {
        p
    }
}

/// How many line feeds `t` holds.
pub open spec fn line_breaks(t: Seq<char>) -> nat
    decreases t.len(),
{
    if t.len() == 0 {
        0
    } else {
        line_breaks(t.drop_last()) + if t.last() == '\n' {
            1nat
        } else {
            0nat
        }
    }
}

/// What a comment says: the text of its token without the leading `//` and
/// without the one blank that may follow it.
pub open spec fn comment_text(t: Seq<char>) -> Seq<char> {
    if t.len() > 2 && t[2] == ' ' {
        t.subrange(3, t.len() as int)
    } else {
        t.subrange(2, t.len() as int)
    }
}

/// A type name: a word that starts with a lowercase letter.
pub open spec fn type_id(s: Seq<char>, toks: Seq<Token>, p: int) -> Result<(int, Seq<char>), Stack> {
    if kind_at(toks, p) == Some(TokenKind::TypeIdent) {
        Ok((p + 1, text_at(s, toks, p)))
    } else {
        Err(seq![(offset_at(s, toks, p), Kind::Context(Message::TypeIdStart))])
    }
}

/// A constructor name: a word that starts with an uppercase letter.
pub open spec fn con_id(s: Seq<char>, toks: Seq<Token>, p: int) -> Result<(int, Seq<char>), Stack> {
    if kind_at(toks, p) == Some(TokenKind::ConstrIdent) {
        Ok((p + 1, text_at(s, toks, p)))
    } else {
        Err(seq![(offset_at(s, toks, p), Kind::Context(Message::ConstrIdStart))])
    }
}

/// Whether a token of kind `k` is a word.
pub open spec fn is_word_kind(k: Option<TokenKind>) -> bool {
    k == Some(TokenKind::TypeIdent) || k == Some(TokenKind::ConstrIdent) || k == Some(
        TokenKind::Attributes,
    )
}

/// A field name: any word.
pub open spec fn id(s: Seq<char>, toks: Seq<Token>, p: int) -> Result<(int, Seq<char>), Stack> {
    if is_word_kind(kind_at(toks, p)) {
        Ok((p + 1, text_at(s, toks, p)))
    } else {
        Err(seq![(offset_at(s, toks, p), Kind::Context(Message::IdStart))])
    }
}

/// The character `c`, with whitespace before and behind it.
pub open spec fn char_ms0(s: Seq<char>, toks: Seq<Token>, p: int, c: char) -> Result<int, Stack> {
    let q = skip_ws(toks, p);
    if punctuation(c) is Some && kind_at(toks, q) == punctuation(c) {
        Ok(skip_ws(toks, q + 1))
    } else {
        Err(seq![(offset_at(s, toks, q), Kind::Char(c))])
    }
}

/// What the token behind the type of a field says of the field: its arity and
/// whether the token is part of the field. `None` for a token that cannot
/// stand there.
pub open spec fn arity_mark(k: Option<TokenKind>) -> Option<(Arity, int)> {
    if k == Some(TokenKind::Star) {
        Some((Arity::Repeated, 1))
    } else if k == Some(TokenKind::Question) {
        Some((Arity::Optional, 1))
    } else if k == Some(TokenKind::Whitespace) || k == Some(TokenKind::RParen) || k == Some(
        TokenKind::Comma,
    ) {
        Some((Arity::Required, 0))
    } else {
        None
    }
}

/// A field: a type name; directly behind it `*` or `?`, or neither; and then,
/// after whitespace, a name, or none.
#[verifier::opaque]
pub open spec fn field(s: Seq<char>, toks: Seq<Token>, p: int) -> Result<(int, Field), Stack> {
    match type_id(s, toks, p) {
        Err(e) => Err(e),
        Ok((q1, t)) => match arity_mark(kind_at(toks, q1)) {
            None => Err(seq![(offset_at(s, toks, q1), Kind::Context(Message::FieldEnd))]),
            Some((arity, n)) => {
                let q2 = q1 + n;
                if kind_at(toks, q2) == Some(TokenKind::Whitespace) && is_word_kind(
                    kind_at(toks, q2 + 1),
                ) {
                    Ok(
                        (
                            q2 + 2,
                            Field { arity, type_id: t, id: Some(text_at(s, toks, q2 + 1)) },
                        ),
                    )
                } else {
                    Ok((q2, Field { arity, type_id: t, id: None }))
                }
            },
        },
    }
}

/// The fields that follow the fields `acc`, which end at `i`: as long as a
/// comma and a field follow, the field is taken.
pub open spec fn more_fields(s: Seq<char>, toks: Seq<Token>, i: int, acc: Seq<Field>) -> (int, Seq<
    Field,
>)
    decreases toks.len() - i,
{
    match char_ms0(s, toks, i, ',') {
        Err(_) => (i, acc),
        Ok(j) => match field(s, toks, j) {
            Err(_) => (i, acc),
            Ok((k, f)) => if i < k <= toks.len() {
                more_fields(s, toks, k, acc.push(f))
            } else {
                (i, acc)
            },
        },
    }
}

/// Fields separated by commas: one at least, and then as many as there are.
/// Where not even one field can be read, the diagnostic is that of the field.
pub open spec fn field_list(s: Seq<char>, toks: Seq<Token>, p: int) -> Result<
    (int, Seq<Field>),
    Stack,
> {
    match field(s, toks, p) {
        Err(e) => Err(e),
        Ok((k, f)) => Ok(more_fields(s, toks, k, seq![f])),
    }
}

/// A list of fields in parentheses: one field at least.
#[verifier::opaque]
pub open spec fn fields(s: Seq<char>, toks: Seq<Token>, p: int) -> Result<(int, Seq<Field>), Stack> {
    match char_ms0(s, toks, p, '(') {
        Err(e) => Err(e),
        Ok(q1) => match field_list(s, toks, q1) {
            Err(e) => Err(e),
            Ok((i, fs)) => match char_ms0(s, toks, i, ')') {
                Err(e) => Err(e),
                Ok(q3) => Ok((q3, fs)),
            },
        },
    }
}

/// One comment line: a comment, with nothing but blanks and tabs before it.
#[verifier::opaque]
pub open spec fn comment_line(s: Seq<char>, toks: Seq<Token>, p: int) -> Result<
    (int, Seq<char>),
    Stack,
> {
    let q = if kind_at(toks, p) == Some(TokenKind::Whitespace) && line_breaks(text_at(s, toks, p))
        == 0 {
        p + 1
    } else {
        p
    };
    if kind_at(toks, q) == Some(TokenKind::Comment) {
        Ok((q + 1, comment_text(text_at(s, toks, q))))
    } else {
        Err(seq![(offset_at(s, toks, q), Kind::Context(Message::CommentStart))])
    }
}

/// The comment lines that follow the lines `acc`, which end at `i`: each on
/// the line directly below the one before it.
pub open spec fn more_comments(s: Seq<char>, toks: Seq<Token>, i: int, acc: Seq<Seq<char>>) -> (
    int,
    Seq<Seq<char>>,
)
    decreases toks.len() - i,
{
    if 0 <= i && kind_at(toks, i) == Some(TokenKind::Whitespace) && line_breaks(
        text_at(s, toks, i),
    ) == 1 && kind_at(toks, i + 1) == Some(TokenKind::Comment) {
        more_comments(s, toks, i + 2, acc.push(comment_text(text_at(s, toks, i + 1))))
    } else {
        (i, acc)
    }
}

/// A block of comment lines, each directly below the one before it; possibly
/// empty. The lines come in source order.
#[verifier::opaque]
pub open spec fn comments(s: Seq<char>, toks: Seq<Token>, p: int) -> (int, Seq<Seq<char>>) {
    match comment_line(s, toks, p) {
        Err(_) => (p, Seq::empty()),
        Ok((i, c)) => more_comments(s, toks, i, seq![c]),
    }
}

/// Where the name of a declaration or of a constructor is expected when
/// reading starts at `p`, and the comment of what is named there: the lines
/// of the last comment block above the name. Whitespace is passed over, and
/// so is every comment block that another comment block follows.
pub open spec fn head(s: Seq<char>, toks: Seq<Token>, p: int) -> (int, Seq<Seq<char>>)
    decreases toks.len() - p,
{
    let (c_end, cs) = comments(s, toks, skip_ws(toks, p));
    let h = skip_ws(toks, c_end);
    if kind_at(toks, h) == Some(TokenKind::Comment) && p < h {
        head(s, toks, h)
    } else {
        (h, cs)
    }
}

/// A constructor: a comment block, a constructor name and, where a
/// parenthesis follows, a list of fields.
#[verifier::opaque]
pub open spec fn constructor(s: Seq<char>, toks: Seq<Token>, p: int) -> Result<(int, Constr), Stack> {
    let (h, cs) = head(s, toks, p);
    match con_id(s, toks, h) {
        Err(e) => Err(e),
        Ok((q2, name)) => {
            let q3 = skip_ws(toks, q2);
            if kind_at(toks, q3) == Some(TokenKind::LParen) {
                match fields(s, toks, q3) {
                    Err(e) => Err(e),
                    Ok((q4, fs)) => Ok((q4, Constr { id: name, fields: fs, comments: cs })),
                }
            } else {
                Ok((q3, Constr { id: name, fields: Seq::empty(), comments: cs }))
            }
        },
    }
}

/// The constructors that follow the constructors `acc`, which end at `i`: as
/// long as a bar and a constructor follow, the constructor is taken.
pub open spec fn more_constructors(s: Seq<char>, toks: Seq<Token>, i: int, acc: Seq<Constr>) -> (
    int,
    Seq<Constr>,
)
    decreases toks.len() - i,
{
    match char_ms0(s, toks, i, '|') {
        Err(_) => (i, acc),
        Ok(j) => match constructor(s, toks, j) {
            Err(_) => (i, acc),
            Ok((k, c)) => if i < k <= toks.len() {
                more_constructors(s, toks, k, acc.push(c))
            } else {
                (i, acc)
            },
        },
    }
}

/// Constructors separated by bars: one at least.
#[verifier::opaque]
pub open spec fn constructors(s: Seq<char>, toks: Seq<Token>, p: int) -> Result<
    (int, Seq<Constr>),
    Stack,
> {
    match constructor(s, toks, p) {
        Err(e) => Err(e),
        Ok((k, c)) => Ok(more_constructors(s, toks, k, seq![c])),
    }
}

/// An attribute list: the keyword and a list of fields.
#[verifier::opaque]
pub open spec fn attrs(s: Seq<char>, toks: Seq<Token>, p: int) -> Result<(int, Seq<Field>), Stack> {
    if kind_at(toks, p) == Some(TokenKind::Attributes) {
        fields(s, toks, p + 1)
    } else {
        Err(seq![(offset_at(s, toks, p), Kind::Nom(Code::IsA))])
    }
}

/// The head of a declaration: a comment block, a type name and `=`. Yields
/// the position behind the `=`, the name and the comment lines.
#[verifier::opaque]
pub open spec fn type_head(s: Seq<char>, toks: Seq<Token>, p: int) -> Result<
    (int, Seq<char>, Seq<Seq<char>>),
    Stack,
> {
    let (h, cs) = head(s, toks, p);
    match type_id(s, toks, h) {
        Err(e) => Err(e),
        Ok((q2, t)) => match char_ms0(s, toks, q2, '=') {
            Err(e) => Err(e),
            Ok(q3) => Ok((q3, t, cs)),
        },
    }
}

/// A product type: the head of a declaration and a list of fields.
#[verifier::opaque]
pub open spec fn prod_type(s: Seq<char>, toks: Seq<Token>, p: int) -> Result<(int, ProdType), Stack> {
    match type_head(s, toks, p) {
        Err(e) => Err(e),
        Ok((q3, t, cs)) => match fields(s, toks, q3) {
            Err(e) => Err(e),
            Ok((q4, fs)) => Ok((q4, ProdType { type_id: t, fields: fs, comments: cs })),
        },
    }
}

/// A sum type: the head of a declaration, its constructors and, where one
/// follows and can be read, an attribute list.
#[verifier::opaque]
pub open spec fn sum_type(s: Seq<char>, toks: Seq<Token>, p: int) -> Result<(int, SumType), Stack> {
    match type_head(s, toks, p) {
        Err(e) => Err(e),
        Ok((q3, t, cs)) => match constructors(s, toks, q3) {
            Err(e) => Err(e),
            Ok((q4, cons)) => match attrs(s, toks, q4) {
                Err(_) => Ok(
                    (q4, SumType { type_id: t, constructors: cons, attrs: None, comments: cs }),
                ),
                Ok((q5, fs)) => Ok(
                    (
                        q5,
                        SumType { type_id: t, constructors: cons, attrs: Some(fs), comments: cs },
                    ),
                ),
            },
        },
    }
}

/// Whether the declaration at `p` is that of a product type: behind its `=`
/// stands an opening parenthesis.
pub open spec fn is_product(s: Seq<char>, toks: Seq<Token>, p: int) -> bool {
    match type_head(s, toks, p) {
        Err(_) => false,
        Ok((q3, _, _)) => kind_at(toks, q3) == Some(TokenKind::LParen),
    }
}

/// A declaration. What follows the `=` decides: a parenthesis makes it a
/// product type, anything else is read as a sum type. A failure is put into
/// the context of a declaration, at the place where its name was expected.
#[verifier::opaque]
pub open spec fn ty(s: Seq<char>, toks: Seq<Token>, p: int) -> Result<(int, Type), Stack> {
    let at = offset_at(s, toks, head(s, toks, p).0);
    if is_product(s, toks, p) {
        match prod_type(s, toks, p) {
            Err(e) => Err(with_context(e, at, Message::TypeDeclaration)),
            Ok((q, t)) => Ok((q, Type::ProdType(t))),
        }
    } else {
        match sum_type(s, toks, p) {
            Err(e) => Err(with_context(e, at, Message::TypeDeclaration)),
            Ok((q, t)) => Ok((q, Type::SumType(t))),
        }
    }
}

/// Whether a declaration starts at `p`: a type name with `=` behind it.
pub open spec fn declaration_starts(toks: Seq<Token>, p: int) -> bool {
    kind_at(toks, p) == Some(TokenKind::TypeIdent) && kind_at(toks, skip_ws(toks, p + 1)) == Some(
        TokenKind::Equals,
    )
}

/// Where reading goes on after a failure: at the first position from `p` on
/// at which a declaration starts, or at the end.
pub open spec fn recover(toks: Seq<Token>, p: int) -> int
    decreases toks.len() - p,
{
    if 0 <= p < toks.len() {
        if declaration_starts(toks, p) {
            p
        } else {
            recover(toks, p + 1)
        }
    } else {
        toks.len() as int
    }
}

/// The first line of the comment block whose last line is the comment at
/// `c`, looking no further back than `low`.
pub open spec fn block_start(s: Seq<char>, toks: Seq<Token>, c: int, low: int) -> int
    decreases c - low,
{
    if low <= c - 2 && kind_at(toks, c - 2) == Some(TokenKind::Comment) && kind_at(toks, c - 1)
        == Some(TokenKind::Whitespace) && line_breaks(text_at(s, toks, c - 1)) == 1 {
        block_start(s, toks, c - 2, low)
    } else {
        c
    }
}

/// Where reading goes on for a declaration whose name stands at `q`: at the
/// comment block directly above the name, as far as it lies behind `low`; or
/// at the name, where no comment stands above it.
pub open spec fn resume(s: Seq<char>, toks: Seq<Token>, q: int, low: int) -> int {
    if low <= q - 2 && kind_at(toks, q - 1) == Some(TokenKind::Whitespace) && kind_at(toks, q - 2)
        == Some(TokenKind::Comment) {
        block_start(s, toks, q - 2, low)
    } else {
        q
    }
}

/// Whether the comment block that ends at `end` stands apart from what
/// follows: a blank line follows it, or nothing but whitespace.
pub open spec fn stands_apart(s: Seq<char>, toks: Seq<Token>, end: int) -> bool {
    kind_at(toks, end) is None || (kind_at(toks, end) == Some(TokenKind::Whitespace) && (
    line_breaks(text_at(s, toks, end)) >= 2 || kind_at(toks, end + 1) is None))
}

/// The comment of the text as a whole, and where the declarations start: a
/// comment block at the top that stands apart from what follows. A block
/// directly above the first declaration belongs to that declaration.
#[verifier::opaque]
pub open spec fn root_comments(s: Seq<char>, toks: Seq<Token>) -> (int, Seq<Seq<char>>) {
    let p = skip_ws(toks, 0);
    let (end, cs) = comments(s, toks, p);
    if cs.len() > 0 && stands_apart(s, toks, end) {
        (end, cs)
    } else {
        (p, Seq::empty())
    }
}

/// A failed declaration as it is reported: as long as no declaration has
/// been read, the diagnostic also says, at the place `at`, that one was
/// expected.
pub open spec fn reported(e: Stack, at: usize, first: bool) -> Stack {
    if first {
        with_context(e, at, Message::AtLeastOneType)
    } else {
        e
    }
}

/// The declarations and diagnostics from `p` on, behind the declarations
/// `types` and the diagnostics `diags`. Each declaration that can be read is
/// taken. One that cannot be read gives a diagnostic and nothing else, and
/// reading goes on with the next declaration that starts behind its name,
/// together with the comment block above that declaration. Whitespace and
/// comments at the end are passed over.
pub open spec fn declarations(
    s: Seq<char>,
    toks: Seq<Token>,
    p: int,
    types: Seq<Type>,
    diags: Seq<Stack>,
) -> (Seq<Type>, Seq<Stack>)
    decreases toks.len() - p,
{
    let start = skip_ws(toks, p);
    let h = head(s, toks, start).0;
    if 0 <= p && h < toks.len() {
        match ty(s, toks, start) {
            Ok((q, t)) => if p < q <= toks.len() {
                declarations(s, toks, q, types.push(t), diags)
            } else {
                (types, diags)
            },
            Err(e) => {
                let q = resume(s, toks, recover(toks, h + 1), h + 1);
                if p < q <= toks.len() {
                    declarations(
                        s,
                        toks,
                        q,
                        types,
                        diags.push(reported(e, offset_at(s, toks, h), types.len() == 0)),
                    )
                } else {
                    (types, diags)
                }
            },
        }
    } else {
        (types, diags)
    }
}

/// What the tokens `toks` of the text `s` say: the syntax tree and the
/// diagnostics, both in source order.
pub open spec fn parse_tokens(s: Seq<char>, toks: Seq<Token>) -> (Root, Seq<Stack>) {
    let (p, cs) = root_comments(s, toks);
    let (types, diags) = declarations(s, toks, p, Seq::empty(), Seq::empty());
    (Root { types, comments: cs }, diags)
}

/// What the text `s` says: its syntax tree and its diagnostics.
pub open spec fn parse(s: Seq<char>) -> (Root, Seq<Stack>) {
    parse_tokens(s, lex(s))
}

} // verus!
