//! Lexical layer: the input text as an ordered, gap-free sequence of tokens.
//!
//! Whitespace and comments are real tokens, so the spans of the tokens of a
//! text tile it exactly: no character is dropped and none is covered twice.
//! A character that starts no token of the notation becomes an `Error` token
//! of length one, and lexing goes on behind it.

use vstd::prelude::*;

verus! {

/// What a token is.
#[derive(Clone, Copy, Debug, PartialEq, Eq, Hash, Structural)]
pub enum TokenKind {
    /// `(`
    LParen,
    /// `)`
    RParen,
    /// `|`
    Pipe,
    /// `?`
    Question,
    /// `*`
    Star,
    /// `,`
    Comma,
    /// `=`
    Equals,
    /// A word that starts with a lowercase letter, of any script.
    TypeIdent,
    /// A word that starts with an uppercase letter, of any script.
    ConstrIdent,
    /// A maximal run of blanks, tabs and line terminators.
    Whitespace,
    /// `//` and the rest of its line, without the line terminator.
    Comment,
    /// The word `attributes`, whole.
    Attributes,
    /// One character that starts no token.
    Error,
}

/// A token: its kind and the half-open range of character positions it covers.
#[derive(Clone, Copy, Debug, PartialEq, Eq, Hash, Structural)]
pub struct Token {
    pub kind: TokenKind,
    pub start: usize,
    pub end: usize,
}

/// The classes of characters that a token may extend over.
#[derive(Clone, Copy, Debug, PartialEq, Eq, Structural)]
pub enum CharClass {
    /// Blank, tab, line feed, carriage return.
    Space,
    /// ASCII letters, ASCII digits and the underscore.
    Word,
    /// Everything but line feed and carriage return.
    Line,
}

pub open spec fn is_space(c: char) -> bool {
    c == ' ' || c == '\t' || c == '\n' || c == '\r'
}

/// Whether `c` is one of the letters `a` to `z`.
pub open spec fn is_ascii_lower(c: char) -> bool {
    'a' <= c && c <= 'z'
}

/// Whether `c` is one of the letters `A` to `Z`.
pub open spec fn is_ascii_upper(c: char) -> bool {
    'A' <= c && c <= 'Z'
}

/// What `char::is_lowercase` answers for `c`: whether `c` has the Unicode
/// property of a lowercase letter.
pub uninterp spec fn lowercase(c: char) -> bool;

/// What `char::is_uppercase` answers for `c`: whether `c` has the Unicode
/// property of an uppercase letter.
pub uninterp spec fn uppercase(c: char) -> bool;

/// Whether `c` is a lowercase letter: among the first 128 characters the
/// letters `a` to `z` and no others, beyond them what Unicode counts as one.
pub open spec fn is_lower(c: char) -> bool {
    if c <= '\u{7f}' {
        is_ascii_lower(c)
    } else {
        lowercase(c)
    }
}

/// Whether `c` is an uppercase letter: among the first 128 characters the
/// letters `A` to `Z` and no others, beyond them what Unicode counts as one.
pub open spec fn is_upper(c: char) -> bool {
    if c <= '\u{7f}' {
        is_ascii_upper(c)
    } else {
        uppercase(c)
    }
}

/// Calls `char::is_lowercase`. The answer is the one that the call gives for
/// this character; for the first 128 characters it is known: `a` to `z` are
/// lowercase letters, and none of the others is.
#[verifier::external_body]
fn lowercase_letter(c: char) -> (b: bool)
    ensures
        b == lowercase(c),
        b == is_lower(c),
{
    c.is_lowercase()
}

/// Calls `char::is_uppercase`. The answer is the one that the call gives for
/// this character; for the first 128 characters it is known: `A` to `Z` are
/// uppercase letters, and none of the others is.
#[verifier::external_body]
fn uppercase_letter(c: char) -> (b: bool)
    ensures
        b == uppercase(c),
        b == is_upper(c),
{
    c.is_uppercase()
}

pub open spec fn is_digit(c: char) -> bool {
    '0' <= c && c <= '9'
}

pub open spec fn is_word(c: char) -> bool {
    is_ascii_lower(c) || is_ascii_upper(c) || is_digit(c) || c == '_'
}

pub open spec fn is_line_end(c: char) -> bool {
    c == '\n' || c == '\r'
}

pub open spec fn in_class(class: CharClass, c: char) -> bool {
    match class {
        CharClass::Space => is_space(c),
        CharClass::Word => is_word(c),
        CharClass::Line => !is_line_end(c),
    }
}

/// The kind of the one-character token that `c` is, if it is one.
pub open spec fn punctuation(c: char) -> Option<TokenKind> {
    if c == '(' {
        Some(TokenKind::LParen)
    } else if c == ')' {
        Some(TokenKind::RParen)
    } else if c == '|' {
        Some(TokenKind::Pipe)
    } else if c == '?' {
        Some(TokenKind::Question)
    } else if c == '*' {
        Some(TokenKind::Star)
    } else if c == ',' {
        Some(TokenKind::Comma)
    } else if c == '=' {
        Some(TokenKind::Equals)
    } else {
        None
    }
}

/// The keyword that opens the attribute list of a sum type.
pub open spec fn keyword() -> Seq<char> {
    seq!['a', 't', 't', 'r', 'i', 'b', 'u', 't', 'e', 's']
}

/// Where the run of characters of `class` that starts at `p` ends: the first
/// position from `p` on that holds no character of the class.
pub open spec fn run_end(s: Seq<char>, class: CharClass, p: int) -> int
    decreases s.len() - p,
{
    if 0 <= p < s.len() && in_class(class, s[p]) {
        run_end(s, class, p + 1)
    } else {
        p
    }
}

/// Whether a comment starts at `p`.
pub open spec fn comment_starts(s: Seq<char>, p: int) -> bool {
    0 <= p && p + 1 < s.len() && s[p] == '/' && s[p + 1] == '/'
}

/// Where the token that starts at `p` ends.
pub open spec fn token_end(s: Seq<char>, p: int) -> int {
    let c = s[p];
    if punctuation(c) is Some {
        p + 1
    } else if is_space(c) {
        run_end(s, CharClass::Space, p + 1)
    } else if comment_starts(s, p) {
        run_end(s, CharClass::Line, p + 2)
    } else if is_lower(c) || is_upper(c) {
        run_end(s, CharClass::Word, p + 1)
    } else {
        p + 1
    }
}

/// The kind of the token that starts at `p`.
pub open spec fn token_kind(s: Seq<char>, p: int) -> TokenKind {
    let c = s[p];
    if punctuation(c) is Some {
        punctuation(c)->0
    } else if is_space(c) {
        TokenKind::Whitespace
    } else if comment_starts(s, p) {
        TokenKind::Comment
    } else if is_lower(c) {
        if s.subrange(p, token_end(s, p)) == keyword() {
            TokenKind::Attributes
        } else {
            TokenKind::TypeIdent
        }
    } else if is_upper(c) {
        TokenKind::ConstrIdent
    } else {
        TokenKind::Error
    }
}

/// The token that starts at `p`.
pub open spec fn token_at(s: Seq<char>, p: int) -> Token {
    Token { kind: token_kind(s, p), start: p as usize, end: token_end(s, p) as usize }
}

/// The tokens of `s` from position `p` on.
pub open spec fn lex_from(s: Seq<char>, p: int) -> Seq<Token>
    decreases s.len() - p,
{
    let e = token_end(s, p);
    if 0 <= p < s.len() && p < e <= s.len() {
        seq![token_at(s, p)] + lex_from(s, e)
    } else {
        Seq::empty()
    }
}

/// The tokens of `s`.
pub open spec fn lex(s: Seq<char>) -> Seq<Token> {
    lex_from(s, 0)
}

/// The characters that token `t` covers.
pub open spec fn text_of(s: Seq<char>, t: Token) -> Seq<char> {
    s.subrange(t.start as int, t.end as int)
}

/// Tokens that tile the positions from `from` to `len`: each is non-empty and
/// starts where the one before it ends.
pub open spec fn tiles(tokens: Seq<Token>, from: int, len: int) -> bool {
    &&& 0 <= from <= len
    &&& tokens.len() == 0 ==> from == len
    &&& tokens.len() > 0 ==> tokens[0].start == from && tokens.last().end == len
    &&& forall|i: int| 0 <= i < tokens.len() ==> (#[trigger] tokens[i]).start < tokens[i].end
    &&& forall|i: int, j: int|
        0 <= i && j == i + 1 && j < tokens.len() ==> (#[trigger] tokens[i]).end
            == (#[trigger] tokens[j]).start
}

/// The texts of `tokens`, one after the other.
pub open spec fn joined(s: Seq<char>, tokens: Seq<Token>) -> Seq<char>
    decreases tokens.len(),
{
    if tokens.len() == 0 {
        Seq::empty()
    } else {
        text_of(s, tokens[0]) + joined(s, tokens.drop_first())
    }
}

/// A run ends inside the text, holds only characters of its class, and cannot
/// be made longer.
pub proof fn lemma_run_end(s: Seq<char>, class: CharClass, p: int)
    requires
        0 <= p <= s.len(),
    ensures
        p <= run_end(s, class, p) <= s.len(),
        forall|i: int| p <= i < run_end(s, class, p) ==> in_class(class, #[trigger] s[i]),
        run_end(s, class, p) < s.len() ==> !in_class(class, s[run_end(s, class, p)]),
    decreases s.len() - p,
{
    if p < s.len() && in_class(class, s[p]) {
        lemma_run_end(s, class, p + 1);
    }
}

/// Every token is non-empty and ends inside the text.
pub proof fn lemma_token_end(s: Seq<char>, p: int)
    requires
        0 <= p < s.len(),
    ensures
        p < token_end(s, p) <= s.len(),
{
    lemma_run_end(s, CharClass::Space, p + 1);
    lemma_run_end(s, CharClass::Word, p + 1);
    if comment_starts(s, p) {
        lemma_run_end(s, CharClass::Line, p + 2);
    }
}

/// The tokens of a text tile it: they are non-empty, lie in source order
/// without gap or overlap, and reach from the first character to the last.
pub proof fn lemma_lex_tiles(s: Seq<char>, p: int)
    requires
        0 <= p <= s.len() <= usize::MAX,
    ensures
        tiles(lex_from(s, p), p, s.len() as int),
    decreases s.len() - p,
{
    if p < s.len() {
        lemma_token_end(s, p);
        let e = token_end(s, p);
        lemma_lex_tiles(s, e);
        let rest = lex_from(s, e);
        let all = lex_from(s, p);
        assert(all == seq![token_at(s, p)] + rest);
        assert(all[0] == token_at(s, p));
        assert forall|i: int| 0 <= i < all.len() implies (#[trigger] all[i]).start
            < all[i].end by {
            if i > 0 {
                assert(all[i] == rest[i - 1]);
            }
        }
        assert forall|i: int, j: int| 0 <= i && j == i + 1 && j < all.len() implies (
        #[trigger] all[i]).end == (#[trigger] all[j]).start by {
            assert(all[j] == rest[i]);
            if i > 0 {
                assert(all[i] == rest[i - 1]);
            }
        }
        if rest.len() > 0 {
            assert(all.last() == rest.last());
        }
    }
}

/// Nothing is lost: the texts of the tokens from `p` on, joined in order, are
/// the text from `p` on.
pub proof fn lemma_lex_lossless(s: Seq<char>, p: int)
    requires
        0 <= p <= s.len() <= usize::MAX,
    ensures
        joined(s, lex_from(s, p)) == s.subrange(p, s.len() as int),
    decreases s.len() - p,
{
    if p < s.len() {
        lemma_token_end(s, p);
        let e = token_end(s, p);
        lemma_lex_lossless(s, e);
        let all = lex_from(s, p);
        assert(all.drop_first() =~= lex_from(s, e));
        assert(text_of(s, all[0]) == s.subrange(p, e));
        assert(s.subrange(p, e) + s.subrange(e, s.len() as int) =~= s.subrange(
            p,
            s.len() as int,
        ));
    } else {
        assert(s.subrange(p, s.len() as int) =~= Seq::<char>::empty());
    }
}

/// Every token of a text is the token that starts at its own first character.
pub proof fn lemma_lex_token_at(s: Seq<char>, p: int, i: int)
    requires
        0 <= p <= s.len() <= usize::MAX,
        0 <= i < lex_from(s, p).len(),
    ensures
        p <= lex_from(s, p)[i].start < s.len(),
        lex_from(s, p)[i] == token_at(s, lex_from(s, p)[i].start as int),
    decreases s.len() - p,
{
    if p < s.len() {
        lemma_token_end(s, p);
        let e = token_end(s, p);
        if i > 0 {
            lemma_lex_token_at(s, e, i - 1);
            assert(lex_from(s, p)[i] == lex_from(s, e)[i - 1]);
        }
    }
}

/// A token of a tiling lies between the ends of the tiling.
pub proof fn lemma_tiles_bounds(tokens: Seq<Token>, from: int, len: int, i: int)
    requires
        tiles(tokens, from, len),
        0 <= i < tokens.len(),
    ensures
        from <= tokens[i].start < tokens[i].end <= len,
{
    lemma_tiles_start(tokens, from, len, i);
    lemma_tiles_end(tokens, from, len, i);
}

proof fn lemma_tiles_start(tokens: Seq<Token>, from: int, len: int, i: int)
    requires
        tiles(tokens, from, len),
        0 <= i < tokens.len(),
    ensures
        from <= tokens[i].start,
    decreases i,
{
    if i > 0 {
        lemma_tiles_start(tokens, from, len, i - 1);
        assert(tokens[i - 1].end == tokens[i].start);
    }
}

proof fn lemma_tiles_end(tokens: Seq<Token>, from: int, len: int, i: int)
    requires
        tiles(tokens, from, len),
        0 <= i < tokens.len(),
    ensures
        tokens[i].end <= len,
    decreases tokens.len() - i,
{
    if i < tokens.len() - 1 {
        lemma_tiles_end(tokens, from, len, i + 1);
        assert(tokens[i].end == tokens[i + 1].start);
    }
}

/// The characters of `input`, one per element.
pub fn characters(input: &str) -> (chars: Vec<char>)
    ensures
        chars@ == input@,
{
    let mut chars: Vec<char> = Vec::new();
    for c in it: input.chars()
        invariant
            chars@ == it.seq().take(it.index() as int),
            it.seq() == input@,
    {
        chars.push(c);
    }
    chars
}

/// Whether `c` belongs to `class`.
pub fn member(class: CharClass, c: char) -> (b: bool)
    ensures
        b == in_class(class, c),
{
    match class {
        CharClass::Space => c == ' ' || c == '\t' || c == '\n' || c == '\r',
        CharClass::Word => (c >= 'a' && c <= 'z') || (c >= 'A' && c <= 'Z') || (c >= '0' && c
            <= '9') || c == '_',
        CharClass::Line => !(c == '\n' || c == '\r'),
    }
}

/// The end of the run of characters of `class` that starts at `from`.
pub fn scan(chars: &Vec<char>, class: CharClass, from: usize) -> (end: usize)
    requires
        from <= chars.len(),
    ensures
        end == run_end(chars@, class, from as int),
        from <= end <= chars.len(),
{
    let mut i: usize = from;
    while i < chars.len() && member(class, chars[i])
        invariant
            from <= i <= chars.len(),
            run_end(chars@, class, i as int) == run_end(chars@, class, from as int),
        decreases chars.len() - i,
    {
        i += 1;
    }
    i
}

/// Whether the characters from `start` to `end` spell the keyword.
pub fn spells_keyword(chars: &Vec<char>, start: usize, end: usize) -> (b: bool)
    requires
        start <= end <= chars.len(),
    ensures
        b == (chars@.subrange(start as int, end as int) == keyword()),
{
    if end - start != 10 {
        assert(keyword().len() == 10);
        return false;
    }
    let b = chars[start] == 'a' && chars[start + 1] == 't' && chars[start + 2] == 't' && chars[start
        + 3] == 'r' && chars[start + 4] == 'i' && chars[start + 5] == 'b' && chars[start + 6] == 'u'
        && chars[start + 7] == 't' && chars[start + 8] == 'e' && chars[start + 9] == 's';
    proof {
        let w = chars@.subrange(start as int, end as int);
        assert(forall|i: int| 0 <= i < 10 ==> w[i] == chars@[start + i]);
        if b {
            assert(w =~= keyword());
        } else {
            assert(keyword()[0] == 'a' && keyword()[1] == 't' && keyword()[2] == 't' && keyword()[3]
                == 'r' && keyword()[4] == 'i' && keyword()[5] == 'b' && keyword()[6] == 'u'
                && keyword()[7] == 't' && keyword()[8] == 'e' && keyword()[9] == 's');
            assert(w[0] == chars@[start + 0]);
        }
    }
    b
}

/// The kind of the one-character token that `c` is, if it is one.
pub fn punctuation_kind(c: char) -> (k: Option<TokenKind>)
    ensures
        k == punctuation(c),
{
    if c == '(' {
        Some(TokenKind::LParen)
    } else if c == ')' {
        Some(TokenKind::RParen)
    } else if c == '|' {
        Some(TokenKind::Pipe)
    } else if c == '?' {
        Some(TokenKind::Question)
    } else if c == '*' {
        Some(TokenKind::Star)
    } else if c == ',' {
        Some(TokenKind::Comma)
    } else if c == '=' {
        Some(TokenKind::Equals)
    } else {
        None
    }
}

/// The token that starts at `p`.
pub fn next_token(chars: &Vec<char>, p: usize) -> (t: Token)
    requires
        p < chars.len(),
    ensures
        t == token_at(chars@, p as int),
        p < t.end <= chars.len(),
{
    proof {
        lemma_token_end(chars@, p as int);
    }
    let c = chars[p];
    if let Some(kind) = punctuation_kind(c) {
        Token { kind, start: p, end: p + 1 }
    } else if member(CharClass::Space, c) {
        Token { kind: TokenKind::Whitespace, start: p, end: scan(chars, CharClass::Space, p + 1) }
    } else if c == '/' && p + 1 < chars.len() && chars[p + 1] == '/' {
        Token { kind: TokenKind::Comment, start: p, end: scan(chars, CharClass::Line, p + 2) }
    } else if lowercase_letter(c) {
        let end = scan(chars, CharClass::Word, p + 1);
        let kind = if spells_keyword(chars, p, end) {
            TokenKind::Attributes
        } else {
            TokenKind::TypeIdent
        };
        Token { kind, start: p, end }
    } else if uppercase_letter(c) {
        Token { kind: TokenKind::ConstrIdent, start: p, end: scan(chars, CharClass::Word, p + 1) }
    } else {
        Token { kind: TokenKind::Error, start: p, end: p + 1 }
    }
}

/// The tokens of `chars`, in source order.
pub fn tokenize_chars(chars: &Vec<char>) -> (tokens: Vec<Token>)
    ensures
        tokens@ == lex(chars@),
        tiles(tokens@, 0, chars.len() as int),
        joined(chars@, tokens@) == chars@,
{
    let mut tokens: Vec<Token> = Vec::new();
    let mut p: usize = 0;
    while p < chars.len()
        invariant
            p <= chars.len(),
            tokens@ + lex_from(chars@, p as int) == lex(chars@),
        decreases chars.len() - p,
    {
        let t = next_token(chars, p);
        proof {
            lemma_token_end(chars@, p as int);
            let rest = lex_from(chars@, t.end as int);
            assert(lex_from(chars@, p as int) == seq![t] + rest);
            assert(tokens@.push(t) + rest =~= tokens@ + (seq![t] + rest));
        }
        tokens.push(t);
        p = t.end;
    }
    proof {
        assert(lex_from(chars@, p as int) =~= Seq::<Token>::empty());
        assert(tokens@ + Seq::<Token>::empty() =~= tokens@);
        lemma_lex_tiles(chars@, 0);
        lemma_lex_lossless(chars@, 0);
        assert(chars@.subrange(0, chars.len() as int) =~= chars@);
    }
    tokens
}

/// The tokens of `input`, in source order. They tile the text, and their
/// texts joined in order give the text back.
pub fn tokenize(input: &str) -> (tokens: Vec<Token>)
    ensures
        tokens@ == lex(input@),
        tiles(tokens@, 0, input@.len() as int),
        joined(input@, tokens@) == input@,
{
    let chars = characters(input);
    tokenize_chars(&chars)
}

} // verus!
