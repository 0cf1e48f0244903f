use asdl::lexer::{tokenize, Token, TokenKind};

fn kinds(input: &str) -> Vec<TokenKind> {
    tokenize(input).iter().map(|t| t.kind).collect()
}

#[test]
fn tokens_tile_the_input() {
    let input = "stm = Compound(stm s1, stm* s2) | Single(stm) // é&\r\n attributes(x?)";
    let tokens = tokenize(input);
    assert_eq!(tokens[0], Token { kind: TokenKind::TypeIdent, start: 0, end: 3 });
    let mut at = 0;
    for t in tokens.iter() {
        assert_eq!(t.start, at);
        assert!(t.start < t.end);
        at = t.end;
    }
    assert_eq!(at, input.chars().count());
}

#[test]
fn every_kind_of_token() {
    assert_eq!(
        kinds("(a|B)?*,= \t\n//c\nattributes &"),
        vec![
            TokenKind::LParen,
            TokenKind::TypeIdent,
            TokenKind::Pipe,
            TokenKind::ConstrIdent,
            TokenKind::RParen,
            TokenKind::Question,
            TokenKind::Star,
            TokenKind::Comma,
            TokenKind::Equals,
            TokenKind::Whitespace,
            TokenKind::Comment,
            TokenKind::Whitespace,
            TokenKind::Attributes,
            TokenKind::Whitespace,
            TokenKind::Error,
        ]
    );
}

#[test]
fn the_keyword_is_no_beginning_of_a_longer_word() {
    assert_eq!(kinds("attributes"), vec![TokenKind::Attributes]);
    assert_eq!(kinds("attributes("), vec![TokenKind::Attributes, TokenKind::LParen]);
    assert_eq!(kinds("attributes1"), vec![TokenKind::TypeIdent]);
    assert_eq!(kinds("attribute"), vec![TokenKind::TypeIdent]);
    assert_eq!(kinds("Attributes"), vec![TokenKind::ConstrIdent]);
}

#[test]
fn what_starts_no_token_is_an_error_of_one_character() {
    assert_eq!(
        tokenize("_a/1"),
        vec![
            Token { kind: TokenKind::Error, start: 0, end: 1 },
            Token { kind: TokenKind::TypeIdent, start: 1, end: 2 },
            Token { kind: TokenKind::Error, start: 2, end: 3 },
            Token { kind: TokenKind::Error, start: 3, end: 4 },
        ]
    );
    assert!(tokenize("").is_empty());
}

#[test]
fn a_comment_ends_before_the_line_terminator() {
    assert_eq!(
        tokenize("// a b\r\nx"),
        vec![
            Token { kind: TokenKind::Comment, start: 0, end: 6 },
            Token { kind: TokenKind::Whitespace, start: 6, end: 8 },
            Token { kind: TokenKind::TypeIdent, start: 8, end: 9 },
        ]
    );
}

#[test]
fn a_word_begins_with_a_letter_of_any_script_and_goes_on_in_ascii() {
    assert_eq!(
        tokenize("éa1_Ü"),
        vec![
            Token { kind: TokenKind::TypeIdent, start: 0, end: 4 },
            Token { kind: TokenKind::ConstrIdent, start: 4, end: 5 },
        ]
    );
    assert_eq!(kinds("Ωx€"), vec![TokenKind::ConstrIdent, TokenKind::Error]);
    assert_eq!(kinds("`{@["), vec![TokenKind::Error; 4]);
}
