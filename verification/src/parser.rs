//! The parser: a recursive descent over the tokens of a text.
//!
//! Each production of the grammar is a method that reads from a token
//! position on and returns what the grammar says is there. Reading a whole
//! text never gives up: a declaration that cannot be read leaves a diagnostic,
//! and reading goes on at the next declaration.

use vstd::prelude::*;
use vstd::string::*;
use crate::ast::{
    Attrs,
    Constr,
    ConstrId,
    Field,
    Id,
    Optional,
    ProdType,
    Repeated,
    Required,
    Root,
    SumType,
    Type,
    TypeId,
};
use crate::diagnostics::{Code, Error, Message};
use crate::grammar;
use crate::grammar::Stack;
use crate::lexer::{
    characters,
    lemma_lex_token_at,
    lemma_run_end,
    lemma_tiles_bounds,
    lex,
    tiles,
    token_at,
    tokenize_chars,
    CharClass,
    Token,
    TokenKind,
};
use crate::model::Arity;

verus! {

/// A text with its tokens, ready to be read production by production.
pub struct Parser<'a> {
    input: &'a str,
    chars: Vec<char>,
    tokens: Vec<Token>,
}

/// Whether what a production returned is what the grammar says: the same
/// position and the same value, or the same diagnostic.
pub open spec fn agrees<T: DeepView>(
    r: Result<(usize, T), Error>,
    g: Result<(int, T::V), Stack>,
) -> bool {
    match r {
        Ok((q, v)) => g == Ok::<(int, T::V), Stack>((q as int, v.deep_view())),
        Err(e) => g == Err::<(int, T::V), Stack>(e.errors@),
    }
}

/// Whether a production that succeeded moved on, and stayed among the tokens.
pub open spec fn advances<T>(r: Result<(usize, T), Error>, pos: usize, len: nat) -> bool {
    match r {
        Ok((q, _)) => pos < q <= len,
        Err(_) => true,
    }
}

/// A vector with one more element has the deep view of the shorter one with
/// the deep view of the element behind it.
pub proof fn lemma_deep_push<T: DeepView>(before: Vec<T>, after: Vec<T>, x: T)
    requires
        after@ == before@.push(x),
    ensures
        after.deep_view() == before.deep_view().push(x.deep_view()),
{
    assert(after.deep_view() =~= before.deep_view().push(x.deep_view()));
}

/// An empty vector has an empty deep view.
pub proof fn lemma_deep_empty<T: DeepView>(v: Vec<T>)
    requires
        v@.len() == 0,
    ensures
        v.deep_view() == Seq::<T::V>::empty(),
{
    assert(v.deep_view() =~= Seq::<T::V>::empty());
}

impl<'a> Parser<'a> {
    /// The text that is read.
    pub closed spec fn text(&self) -> Seq<char> {
        self.input@
    }

    /// The tokens of the text.
    pub closed spec fn tokens(&self) -> Seq<Token> {
        self.tokens@
    }

    /// The characters of the text, as the parser holds them.
    pub closed spec fn characters(&self) -> Seq<char> {
        self.chars@
    }

    /// What holds of every parser: its tokens are those of its text.
    pub open spec fn wf(&self) -> bool {
        &&& self.characters() == self.text()
        &&& self.tokens() == lex(self.text())
        &&& tiles(self.tokens(), 0, self.text().len() as int)
    }

    /// A parser for `input`.
    pub fn new(input: &'a str) -> (parser: Parser<'a>)
        ensures
            parser.wf(),
            parser.text() == input@,
    {
        let chars = characters(input);
        let tokens = tokenize_chars(&chars);
        Parser { input, chars, tokens }
    }

    /// The kind of the token at `pos`.
    pub fn kind(&self, pos: usize) -> (k: Option<TokenKind>)
        ensures
            k == grammar::kind_at(self.tokens(), pos as int),
            k is Some ==> pos < usize::MAX,
    {
        if pos < self.tokens.len() {
            Some(self.tokens[pos].kind)
        } else {
            None
        }
    }

    /// Whether a token of kind `kind` stands at `pos`.
    pub fn at(&self, pos: usize, kind: TokenKind) -> (b: bool)
        ensures
            b == (grammar::kind_at(self.tokens(), pos as int) == Some(kind)),
            b ==> pos < usize::MAX,
    {
        pos < self.tokens.len() && self.tokens[pos].kind == kind
    }

    /// The character position at which the token at `pos` starts.
    pub fn offset(&self, pos: usize) -> (o: usize)
        requires
            self.wf(),
        ensures
            o == grammar::offset_at(self.text(), self.tokens(), pos as int),
            o <= self.text().len(),
    {
        if pos < self.tokens.len() {
            proof {
                lemma_tiles_bounds(self.tokens@, 0, self.input@.len() as int, pos as int);
            }
            self.tokens[pos].start
        } else {
            self.chars.len()
        }
    }

    /// The text from the token at `pos` on.
    pub fn rest(&self, pos: usize) -> (t: &'a str)
        requires
            self.wf(),
        ensures
            t@ == self.text().subrange(
                grammar::offset_at(self.text(), self.tokens(), pos as int) as int,
                self.text().len() as int,
            ),
    {
        let from = self.offset(pos);
        self.input.substring_char(from, self.chars.len())
    }

    /// The position behind the whitespace at `pos`, if there is any.
    pub fn skip_ws(&self, pos: usize) -> (q: usize)
        ensures
            q == grammar::skip_ws(self.tokens(), pos as int),
            pos <= q,
            pos <= self.tokens().len() ==> q <= self.tokens().len(),
    {
        if self.at(pos, TokenKind::Whitespace) {
            pos + 1
        } else {
            pos
        }
    }

    /// The text of the token at `pos`.
    pub fn slice(&self, pos: usize) -> (t: &'a str)
        requires
            self.wf(),
            pos < self.tokens().len(),
        ensures
            t@ == grammar::text_at(self.text(), self.tokens(), pos as int),
    {
        proof {
            lemma_tiles_bounds(self.tokens@, 0, self.input@.len() as int, pos as int);
        }
        self.input.substring_char(self.tokens[pos].start, self.tokens[pos].end)
    }

    /// How many line feeds the token at `pos` holds.
    pub fn breaks(&self, pos: usize) -> (n: usize)
        requires
            self.wf(),
            pos < self.tokens().len(),
        ensures
            n == grammar::line_breaks(grammar::text_at(self.text(), self.tokens(), pos as int)),
    {
        proof {
            lemma_tiles_bounds(self.tokens@, 0, self.input@.len() as int, pos as int);
        }
        let start = self.tokens[pos].start;
        let end = self.tokens[pos].end;
        let mut n: usize = 0;
        let mut i: usize = start;
        assert(self.chars@.subrange(start as int, start as int) =~= Seq::<char>::empty());
        while i < end
            invariant
                start <= i <= end <= self.chars.len(),
                n <= i - start,
                n == grammar::line_breaks(self.chars@.subrange(start as int, i as int)),
            decreases end - i,
        {
            proof {
                let longer = self.chars@.subrange(start as int, i + 1);
                assert(longer.drop_last() =~= self.chars@.subrange(start as int, i as int));
                assert(longer.last() == self.chars@[i as int]);
            }
            if self.chars[i] == '\n' {
                n += 1;
            }
            i += 1;
        }
        n
    }

    /// What the comment at `pos` says.
    pub fn comment(&self, pos: usize) -> (t: &'a str)
        requires
            self.wf(),
            grammar::kind_at(self.tokens(), pos as int) == Some(TokenKind::Comment),
        ensures
            t@ == grammar::comment_text(grammar::text_at(self.text(), self.tokens(), pos as int)),
    {
        let token = self.tokens[pos];
        proof {
            lemma_tiles_bounds(self.tokens@, 0, self.input@.len() as int, pos as int);
            lemma_lex_token_at(self.input@, 0, pos as int);
            assert(token == token_at(self.input@, token.start as int));
            lemma_run_end(self.input@, CharClass::Line, token.start + 2);
        }
        let from = if token.end > token.start + 2 && self.chars[token.start + 2] == ' ' {
            token.start + 3
        } else {
            token.start + 2
        };
        let t = self.input.substring_char(from, token.end);
        proof {
            let whole = grammar::text_at(self.text(), self.tokens(), pos as int);
            assert(whole.len() == token.end - token.start);
            if whole.len() > 2 {
                assert(whole[2] == self.chars@[token.start + 2]);
            }
            assert(t@ =~= grammar::comment_text(whole));
        }
        t
    }

    /// A type name.
    pub fn type_id(&self, pos: usize) -> (r: Result<(usize, TypeId<'a>), Error>)
        requires
            self.wf(),
        ensures
            agrees(r, grammar::type_id(self.text(), self.tokens(), pos as int)),
            advances(r, pos, self.tokens().len()),
    {
        if self.at(pos, TokenKind::TypeIdent) {
            Ok((pos + 1, TypeId(self.slice(pos))))
        } else {
            Err(Error::expected(self.offset(pos), Code::TakeWhileMN, Message::TypeIdStart))
        }
    }

    /// A constructor name.
    pub fn con_id(&self, pos: usize) -> (r: Result<(usize, ConstrId<'a>), Error>)
        requires
            self.wf(),
        ensures
            agrees(r, grammar::con_id(self.text(), self.tokens(), pos as int)),
            advances(r, pos, self.tokens().len()),
    {
        if self.at(pos, TokenKind::ConstrIdent) {
            Ok((pos + 1, ConstrId(self.slice(pos))))
        } else {
            Err(Error::expected(self.offset(pos), Code::TakeWhileMN, Message::ConstrIdStart))
        }
    }

    /// A field name.
    pub fn id(&self, pos: usize) -> (r: Result<(usize, Id<'a>), Error>)
        requires
            self.wf(),
        ensures
            agrees(r, grammar::id(self.text(), self.tokens(), pos as int)),
            advances(r, pos, self.tokens().len()),
    {
        if self.at(pos, TokenKind::TypeIdent) || self.at(pos, TokenKind::ConstrIdent) || self.at(
            pos,
            TokenKind::Attributes,
        ) {
            Ok((pos + 1, Id(self.slice(pos))))
        } else {
            Err(Error::expected(self.offset(pos), Code::TakeWhileMN, Message::IdStart))
        }
    }

    /// The character `c`, with whitespace before and behind it. Only the
    /// characters that are tokens of their own can be found.
    pub fn char_ms0(&self, c: char, pos: usize) -> (r: Result<usize, Error>)
        requires
            self.wf(),
        ensures
            match r {
                Ok(q) => grammar::char_ms0(self.text(), self.tokens(), pos as int, c) == Ok::<
                    int,
                    Stack,
                >(q as int) && pos < q <= self.tokens().len(),
                Err(e) => grammar::char_ms0(self.text(), self.tokens(), pos as int, c) == Err::<
                    int,
                    Stack,
                >(e.errors@),
            },
    {
        let q = self.skip_ws(pos);
        let found = match crate::lexer::punctuation_kind(c) {
            Some(kind) => self.at(q, kind),
            None => false,
        };
        if found {
            Ok(self.skip_ws(q + 1))
        } else {
            Err(Error::from_char(self.offset(q), c))
        }
    }

    /// A field.
    pub fn field(&self, pos: usize) -> (r: Result<(usize, Field<'a>), Error>)
        requires
            self.wf(),
        ensures
            agrees(r, grammar::field(self.text(), self.tokens(), pos as int)),
            advances(r, pos, self.tokens().len()),
    {
        proof {
            reveal(grammar::field);
        }
        let (q1, type_id) = match self.type_id(pos) {
            Ok(read) => read,
            Err(e) => {
                return Err(e);
            },
        };
        let mark = match self.kind(q1) {
            Some(TokenKind::Star) => Some((Arity::Repeated, q1 + 1)),
            Some(TokenKind::Question) => Some((Arity::Optional, q1 + 1)),
            Some(TokenKind::Whitespace) => Some((Arity::Required, q1)),
            Some(TokenKind::RParen) => Some((Arity::Required, q1)),
            Some(TokenKind::Comma) => Some((Arity::Required, q1)),
            _ => None,
        };
        let (arity, q2) = match mark {
            Some(found) => found,
            None => {
                return Err(Error::expected(self.offset(q1), Code::OneOf, Message::FieldEnd));
            },
        };
        let mut name: Option<Id<'a>> = None;
        let mut end: usize = q2;
        if self.at(q2, TokenKind::Whitespace) {
            match self.id(q2 + 1) {
                Ok((q3, id)) => {
                    name = Some(id);
                    end = q3;
                },
                Err(_) => {},
            }
        }
        let field = match arity {
            Arity::Repeated => Field::Repeated(Repeated::new(type_id, name)),
            Arity::Optional => Field::Optional(Optional::new(type_id, name)),
            Arity::Required => Field::Required(Required::new(type_id, name)),
        };
        Ok((end, field))
    }

    /// Fields separated by commas: one at least.
    pub fn field_list(&self, pos: usize) -> (r: Result<(usize, Vec<Field<'a>>), Error>)
        requires
            self.wf(),
        ensures
            agrees(r, grammar::field_list(self.text(), self.tokens(), pos as int)),
            advances(r, pos, self.tokens().len()),
    {
        let mut list: Vec<Field<'a>> = Vec::new();
        let mut i: usize = pos;
        match self.field(pos) {
            Err(e) => {
                return Err(e);
            },
            Ok((k, f)) => {
                let ghost before = list;
                list.push(f);
                proof {
                    lemma_deep_push(before, list, f);
                    lemma_deep_empty(before);
                    assert(list.deep_view() =~= seq![f.deep_view()]);
                }
                i = k;
            },
        }
        loop
            invariant
                self.wf(),
                pos < i <= self.tokens().len(),
                Ok::<(int, Seq<crate::syntax::Field>), Stack>(
                    grammar::more_fields(self.text(), self.tokens(), i as int, list.deep_view()),
                ) == grammar::field_list(self.text(), self.tokens(), pos as int),
            decreases self.tokens().len() - i,
        {
            let j = match self.char_ms0(',', i) {
                Ok(j) => j,
                Err(_) => {
                    return Ok((i, list));
                },
            };
            match self.field(j) {
                Err(_) => {
                    return Ok((i, list));
                },
                Ok((k, f)) => {
                    let ghost before = list;
                    list.push(f);
                    proof {
                        lemma_deep_push(before, list, f);
                    }
                    i = k;
                },
            }
        }
    }

    /// A list of fields in parentheses: one field at least.
    pub fn fields(&self, pos: usize) -> (r: Result<(usize, Vec<Field<'a>>), Error>)
        requires
            self.wf(),
        ensures
            agrees(r, grammar::fields(self.text(), self.tokens(), pos as int)),
            advances(r, pos, self.tokens().len()),
    {
        proof {
            reveal(grammar::fields);
        }
        let q1 = match self.char_ms0('(', pos) {
            Ok(q1) => q1,
            Err(e) => {
                return Err(e);
            },
        };
        let (i, list) = match self.field_list(q1) {
            Ok(read) => read,
            Err(e) => {
                return Err(e);
            },
        };
        match self.char_ms0(')', i) {
            Ok(q3) => Ok((q3, list)),
            Err(e) => Err(e),
        }
    }

    /// One comment line.
    pub fn comment_line(&self, pos: usize) -> (r: Result<(usize, &'a str), Error>)
        requires
            self.wf(),
        ensures
            agrees(r, grammar::comment_line(self.text(), self.tokens(), pos as int)),
            advances(r, pos, self.tokens().len()),
    {
        proof {
            reveal(grammar::comment_line);
        }
        let q = if self.at(pos, TokenKind::Whitespace) && self.breaks(pos) == 0 {
            pos + 1
        } else {
            pos
        };
        if self.at(q, TokenKind::Comment) {
            Ok((q + 1, self.comment(q)))
        } else {
            Err(Error::expected(self.offset(q), Code::Tag, Message::CommentStart))
        }
    }

    /// A block of comment lines; possibly empty. It never fails.
    pub fn comments(&self, pos: usize) -> (r: Result<(usize, Vec<&'a str>), Error>)
        requires
            self.wf(),
        ensures
            r matches Ok((q, lines)) && (q as int, lines.deep_view()) == grammar::comments(
                self.text(),
                self.tokens(),
                pos as int,
            ) && pos <= q && (pos <= self.tokens().len() ==> q <= self.tokens().len()),
    {
        proof {
            reveal(grammar::comments);
        }
        let mut lines: Vec<&'a str> = Vec::new();
        let mut i: usize = pos;
        match self.comment_line(pos) {
            Err(_) => {
                proof {
                    lemma_deep_empty(lines);
                }
                return Ok((pos, lines));
            },
            Ok((k, c)) => {
                let ghost before = lines;
                lines.push(c);
                proof {
                    lemma_deep_push(before, lines, c);
                    lemma_deep_empty(before);
                    assert(lines.deep_view() =~= seq![c@]);
                }
                i = k;
            },
        }
        loop
            invariant
                self.wf(),
                pos <= i <= self.tokens().len(),
                grammar::more_comments(self.text(), self.tokens(), i as int, lines.deep_view())
                    == grammar::comments(self.text(), self.tokens(), pos as int),
            decreases self.tokens().len() - i,
        {
            if self.at(i, TokenKind::Whitespace) && self.breaks(i) == 1 && self.at(
                i + 1,
                TokenKind::Comment,
            ) {
                let c = self.comment(i + 1);
                let ghost before = lines;
                lines.push(c);
                proof {
                    lemma_deep_push(before, lines, c);
                }
                i = i + 2;
            } else {
                return Ok((i, lines));
            }
        }
    }

    /// Where a name is expected when reading starts at `pos`, and the lines
    /// of the last comment block above it.
    pub fn head(&self, pos: usize) -> (r: (usize, Vec<&'a str>))
        requires
            self.wf(),
        ensures
            (r.0 as int, r.1.deep_view()) == grammar::head(self.text(), self.tokens(), pos as int),
            pos <= r.0,
            pos <= self.tokens().len() ==> r.0 <= self.tokens().len(),
    {
        let mut p: usize = pos;
        loop
            invariant
                self.wf(),
                pos <= p,
                pos <= self.tokens().len() ==> p <= self.tokens().len(),
                grammar::head(self.text(), self.tokens(), p as int) == grammar::head(
                    self.text(),
                    self.tokens(),
                    pos as int,
                ),
            decreases self.tokens().len() - p,
        {
            let start = self.skip_ws(p);
            let (end, lines) = match self.comments(start) {
                Ok(read) => read,
                Err(_) => (start, Vec::new()),
            };
            let h = self.skip_ws(end);
            if self.at(h, TokenKind::Comment) && p < h {
                p = h;
            } else {
                return (h, lines);
            }
        }
    }

    /// A constructor.
    pub fn constructor(&self, pos: usize) -> (r: Result<(usize, Constr<'a>), Error>)
        requires
            self.wf(),
        ensures
            agrees(r, grammar::constructor(self.text(), self.tokens(), pos as int)),
            advances(r, pos, self.tokens().len()),
    {
        proof {
            reveal(grammar::constructor);
        }
        let (h, comments) = self.head(pos);
        let (q2, id) = match self.con_id(h) {
            Ok(read) => read,
            Err(e) => {
                return Err(e);
            },
        };
        let q3 = self.skip_ws(q2);
        if self.at(q3, TokenKind::LParen) {
            match self.fields(q3) {
                Ok((q4, fields)) => Ok((q4, Constr::new(id, fields, comments))),
                Err(e) => Err(e),
            }
        } else {
            let fields: Vec<Field<'a>> = Vec::new();
            proof {
                lemma_deep_empty(fields);
            }
            Ok((q3, Constr::new(id, fields, comments)))
        }
    }

    /// Constructors separated by bars: one at least.
    pub fn constructors(&self, pos: usize) -> (r: Result<(usize, Vec<Constr<'a>>), Error>)
        requires
            self.wf(),
        ensures
            agrees(r, grammar::constructors(self.text(), self.tokens(), pos as int)),
            advances(r, pos, self.tokens().len()),
    {
        proof {
            reveal(grammar::constructors);
        }
        let mut list: Vec<Constr<'a>> = Vec::new();
        let mut i: usize = pos;
        match self.constructor(pos) {
            Err(e) => {
                return Err(e);
            },
            Ok((k, c)) => {
                let ghost before = list;
                let ghost first = c;
                list.push(c);
                proof {
                    lemma_deep_push(before, list, first);
                    lemma_deep_empty(before);
                    assert(list.deep_view() =~= seq![first.deep_view()]);
                }
                i = k;
            },
        }
        loop
            invariant
                self.wf(),
                pos < i <= self.tokens().len(),
                Ok::<(int, Seq<crate::syntax::Constr>), Stack>(
                    grammar::more_constructors(
                        self.text(),
                        self.tokens(),
                        i as int,
                        list.deep_view(),
                    ),
                ) == grammar::constructors(self.text(), self.tokens(), pos as int),
            decreases self.tokens().len() - i,
        {
            let j = match self.char_ms0('|', i) {
                Ok(j) => j,
                Err(_) => {
                    return Ok((i, list));
                },
            };
            match self.constructor(j) {
                Err(_) => {
                    return Ok((i, list));
                },
                Ok((k, c)) => {
                    let ghost before = list;
                    let ghost next = c;
                    list.push(c);
                    proof {
                        lemma_deep_push(before, list, next);
                    }
                    i = k;
                },
            }
        }
    }

    /// An attribute list.
    pub fn attrs(&self, pos: usize) -> (r: Result<(usize, Attrs<'a>), Error>)
        requires
            self.wf(),
        ensures
            agrees(r, grammar::attrs(self.text(), self.tokens(), pos as int)),
            advances(r, pos, self.tokens().len()),
    {
        proof {
            reveal(grammar::attrs);
        }
        if self.at(pos, TokenKind::Attributes) {
            match self.fields(pos + 1) {
                Ok((q, fields)) => Ok((q, Attrs::new(fields))),
                Err(e) => Err(e),
            }
        } else {
            Err(Error::from_error_kind(self.offset(pos), Code::IsA))
        }
    }

    /// The head of a declaration: comment lines, a type name and `=`.
    pub fn type_head(&self, pos: usize) -> (r: Result<(usize, TypeId<'a>, Vec<&'a str>), Error>)
        requires
            self.wf(),
        ensures
            match r {
                Ok((q, t, lines)) => grammar::type_head(self.text(), self.tokens(), pos as int)
                    == Ok::<(int, Seq<char>, Seq<Seq<char>>), Stack>(
                    (q as int, t.deep_view(), lines.deep_view()),
                ) && pos < q <= self.tokens().len(),
                Err(e) => grammar::type_head(self.text(), self.tokens(), pos as int) == Err::<
                    (int, Seq<char>, Seq<Seq<char>>),
                    Stack,
                >(e.errors@),
            },
    {
        proof {
            reveal(grammar::type_head);
        }
        let (h, comments) = self.head(pos);
        let (q2, type_id) = match self.type_id(h) {
            Ok(read) => read,
            Err(e) => {
                return Err(e);
            },
        };
        match self.char_ms0('=', q2) {
            Ok(q3) => Ok((q3, type_id, comments)),
            Err(e) => Err(e),
        }
    }

    /// What follows the head of a sum type: its constructors and, where one
    /// follows and can be read, its attribute list.
    fn sum_body(&self, pos: usize, type_id: TypeId<'a>, comments: Vec<&'a str>) -> (r: Result<
        (usize, SumType<'a>),
        Error,
    >)
        requires
            self.wf(),
        ensures
            match r {
                Ok((q, t)) => {
                    &&& pos < q <= self.tokens().len()
                    &&& t.type_id == type_id
                    &&& t.comments == comments
                    &&& grammar::constructors(self.text(), self.tokens(), pos as int) matches Ok(
                        (q4, cons),
                    ) && t.deep_view().constructors == cons && match grammar::attrs(
                        self.text(),
                        self.tokens(),
                        q4,
                    ) {
                        Ok((q5, fs)) => q == q5 && t.deep_view().attrs == Some(fs),
                        Err(_) => q == q4 && t.deep_view().attrs.is_none(),
                    }
                },
                Err(e) => grammar::constructors(self.text(), self.tokens(), pos as int) == Err::<
                    (int, Seq<crate::syntax::Constr>),
                    Stack,
                >(e.errors@),
            },
    {
        let (q4, constructors) = match self.constructors(pos) {
            Ok(read) => read,
            Err(e) => {
                return Err(e);
            },
        };
        match self.attrs(q4) {
            Ok((q5, attrs)) => Ok((q5, SumType::new(type_id, constructors, Some(attrs), comments))),
            Err(_) => Ok((q4, SumType::new(type_id, constructors, None, comments))),
        }
    }

    /// A product type.
    pub fn prod_type(&self, pos: usize) -> (r: Result<(usize, ProdType<'a>), Error>)
        requires
            self.wf(),
        ensures
            agrees(r, grammar::prod_type(self.text(), self.tokens(), pos as int)),
            advances(r, pos, self.tokens().len()),
    {
        proof {
            reveal(grammar::prod_type);
        }
        let (q3, type_id, comments) = match self.type_head(pos) {
            Ok(read) => read,
            Err(e) => {
                return Err(e);
            },
        };
        match self.fields(q3) {
            Ok((q4, fields)) => Ok((q4, ProdType::new(type_id, fields, comments))),
            Err(e) => Err(e),
        }
    }

    /// A sum type.
    pub fn sum_type(&self, pos: usize) -> (r: Result<(usize, SumType<'a>), Error>)
        requires
            self.wf(),
        ensures
            agrees(r, grammar::sum_type(self.text(), self.tokens(), pos as int)),
            advances(r, pos, self.tokens().len()),
    {
        proof {
            reveal(grammar::sum_type);
        }
        let (q3, type_id, comments) = match self.type_head(pos) {
            Ok(read) => read,
            Err(e) => {
                return Err(e);
            },
        };
        self.sum_body(q3, type_id, comments)
    }

    /// A declaration. What follows the `=` decides between a product type and
    /// a sum type; a failure is put into the context of the declaration.
    pub fn ty(&self, pos: usize) -> (r: Result<(usize, Type<'a>), Error>)
        requires
            self.wf(),
        ensures
            agrees(r, grammar::ty(self.text(), self.tokens(), pos as int)),
            advances(r, pos, self.tokens().len()),
    {
        proof {
            reveal(grammar::ty);
            reveal(grammar::prod_type);
            reveal(grammar::sum_type);
        }
        let (h, _) = self.head(pos);
        let at = self.offset(h);
        let (q3, type_id, comments) = match self.type_head(pos) {
            Ok(read) => read,
            Err(e) => {
                return Err(Error::add_context(at, Message::TypeDeclaration, e));
            },
        };
        if self.at(q3, TokenKind::LParen) {
            match self.fields(q3) {
                Ok((q4, fields)) => Ok(
                    (q4, Type::ProdType(ProdType::new(type_id, fields, comments))),
                ),
                Err(e) => Err(Error::add_context(at, Message::TypeDeclaration, e)),
            }
        } else {
            match self.sum_body(q3, type_id, comments) {
                Ok((q, t)) => Ok((q, Type::SumType(t))),
                Err(e) => Err(Error::add_context(at, Message::TypeDeclaration, e)),
            }
        }
    }

    /// Where reading goes on after a failure: at the first position from
    /// `pos` on at which a declaration starts, or at the end.
    pub fn recover(&self, pos: usize) -> (q: usize)
        requires
            pos <= self.tokens().len(),
        ensures
            q == grammar::recover(self.tokens(), pos as int),
            pos <= q <= self.tokens().len(),
    {
        let mut i: usize = pos;
        while i < self.tokens.len()
            invariant
                pos <= i <= self.tokens().len(),
                grammar::recover(self.tokens(), i as int) == grammar::recover(
                    self.tokens(),
                    pos as int,
                ),
            decreases self.tokens().len() - i,
        {
            if self.at(i, TokenKind::TypeIdent) && self.at(self.skip_ws(i + 1), TokenKind::Equals) {
                return i;
            }
            i += 1;
        }
        i
    }

    /// Where reading goes on for a declaration whose name stands at `q`: at
    /// the comment block directly above the name, as far as it lies behind
    /// `low`; or at the name.
    pub fn resume(&self, q: usize, low: usize) -> (r: usize)
        requires
            self.wf(),
            low <= q <= self.tokens().len(),
        ensures
            r == grammar::resume(self.text(), self.tokens(), q as int, low as int),
            low <= r <= q,
    {
        if q >= 2 && low <= q - 2 && self.at(q - 1, TokenKind::Whitespace) && self.at(
            q - 2,
            TokenKind::Comment,
        ) {
            let mut c: usize = q - 2;
            while c >= 2 && low <= c - 2 && self.at(c - 2, TokenKind::Comment) && self.at(
                c - 1,
                TokenKind::Whitespace,
            ) && self.breaks(c - 1) == 1
                invariant
                    self.wf(),
                    low <= c <= q - 2,
                    q <= self.tokens().len(),
                    grammar::block_start(self.text(), self.tokens(), c as int, low as int)
                        == grammar::block_start(
                        self.text(),
                        self.tokens(),
                        q - 2,
                        low as int,
                    ),
                decreases c,
            {
                c = c - 2;
            }
            c
        } else {
            q
        }
    }

    /// The comment of the text as a whole, and where the declarations start.
    pub fn root_comments(&self) -> (r: (usize, Vec<&'a str>))
        requires
            self.wf(),
        ensures
            (r.0 as int, r.1.deep_view()) == grammar::root_comments(self.text(), self.tokens()),
            r.0 <= self.tokens().len(),
    {
        proof {
            reveal(grammar::root_comments);
        }
        let start = self.skip_ws(0);
        let (end, lines) = match self.comments(start) {
            Ok(read) => read,
            Err(_) => (start, Vec::new()),
        };
        let apart = end >= self.tokens.len() || (self.at(end, TokenKind::Whitespace) && (
        self.breaks(end) >= 2 || end + 1 >= self.tokens.len()));
        if lines.len() > 0 && apart {
            (end, lines)
        } else {
            let none: Vec<&'a str> = Vec::new();
            proof {
                lemma_deep_empty(none);
            }
            (start, none)
        }
    }

    /// The whole text: its syntax tree and its diagnostics, both in source
    /// order. Every declaration that can be read is in the tree; every one
    /// that cannot has left a diagnostic.
    pub fn parse(&self) -> (r: (Root<'a>, Vec<Error>))
        requires
            self.wf(),
        ensures
            (r.0.deep_view(), r.1.deep_view()) == grammar::parse(self.text()),
    {
        let (first, comments) = self.root_comments();
        let mut types: Vec<Type<'a>> = Vec::new();
        let mut diagnostics: Vec<Error> = Vec::new();
        let mut p: usize = first;
        proof {
            lemma_deep_empty(types);
            lemma_deep_empty(diagnostics);
        }
        loop
            invariant
                self.wf(),
                p <= self.tokens().len(),
                (first as int, comments.deep_view()) == grammar::root_comments(
                    self.text(),
                    self.tokens(),
                ),
                grammar::declarations(
                    self.text(),
                    self.tokens(),
                    p as int,
                    types.deep_view(),
                    diagnostics.deep_view(),
                ) == grammar::declarations(
                    self.text(),
                    self.tokens(),
                    first as int,
                    Seq::empty(),
                    Seq::empty(),
                ),
            decreases self.tokens().len() - p,
        {
            let start = self.skip_ws(p);
            let (h, _) = self.head(start);
            if h >= self.tokens.len() {
                return (Root::new(types, comments), diagnostics);
            }
            match self.ty(start) {
                Ok((q, t)) => {
                    let ghost before = types;
                    let ghost read = t;
                    types.push(t);
                    proof {
                        lemma_deep_push(before, types, read);
                    }
                    p = q;
                },
                Err(e) => {
                    let e = if types.len() == 0 {
                        Error::add_context(self.offset(h), Message::AtLeastOneType, e)
                    } else {
                        e
                    };
                    let ghost before = diagnostics;
                    let ghost said = e;
                    diagnostics.push(e);
                    proof {
                        lemma_deep_push(before, diagnostics, said);
                    }
                    p = self.resume(self.recover(h + 1), h + 1);
                },
            }
        }
    }
}

/// Reads `i`: its syntax tree and its diagnostics, both in source order. The
/// empty text has an empty tree and no diagnostics.
pub fn parse<'a>(i: &'a str) -> (r: (Root<'a>, Vec<Error>))
    ensures
        (r.0.deep_view(), r.1.deep_view()) == grammar::parse(i@),
{
    let parser = Parser::new(i);
    parser.parse()
}

} // verus!
