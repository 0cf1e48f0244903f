use asdl::diagnostics::{convert_error, Code, Error, Frame, Kind, Message};
use asdl::parser::Parser;

#[test]
fn a_context_takes_the_place_of_a_bare_rule() {
    let bare = Error::from_error_kind(3, Code::TakeWhileMN);
    assert_eq!(bare.errors, vec![(3, Kind::Nom(Code::TakeWhileMN))]);
    let named = Error::add_context(3, Message::TypeIdStart, bare);
    assert_eq!(named.errors, vec![(3, Kind::Context(Message::TypeIdStart))]);
    let outer = Error::add_context(0, Message::TypeDeclaration, named);
    assert_eq!(
        outer.errors,
        vec![(3, Kind::Context(Message::TypeIdStart)), (0, Kind::Context(Message::TypeDeclaration))]
    );
}

#[test]
fn a_context_goes_on_top_of_an_expected_character() {
    let inner = Error::from_char(7, '=');
    let both = Error::append(0, Code::Alt, inner);
    assert_eq!(both.errors, vec![(7, Kind::Char('=')), (0, Kind::Nom(Code::Alt))]);
    let named = Error::add_context(0, Message::TypeDeclaration, both);
    assert_eq!(
        named.errors,
        vec![(7, Kind::Char('=')), (0, Kind::Context(Message::TypeDeclaration))]
    );
    let empty = Error::add_context(2, Message::FieldEnd, Error { errors: vec![] });
    assert_eq!(empty.errors, vec![(2, Kind::Context(Message::FieldEnd))]);
}

#[test]
fn expected_is_a_rule_with_its_context() {
    let e = Error::expected(4, Code::OneOf, Message::FieldEnd);
    assert_eq!(e.errors, vec![(4, Kind::Context(Message::FieldEnd))]);
}

#[test]
fn a_bare_rule_is_shown_by_its_name() {
    let input = "s = A x";
    let p = Parser::new(input);
    let err = p.attrs(6).unwrap_err();
    assert_eq!(err.errors, vec![(6, Kind::Nom(Code::IsA))]);
    assert_eq!(convert_error(input, err), "0: at line 0, in IsA:\ns = A x\n      ^\n\n");
    for (code, name) in [
        (Code::Alt, "Alt"),
        (Code::Many1, "Many1"),
        (Code::TakeWhileMN, "TakeWhileMN"),
        (Code::OneOf, "OneOf"),
        (Code::Tag, "Tag"),
    ] {
        assert_eq!(
            convert_error("ab", Error::from_error_kind(1, code)),
            format!("0: at line 0, in {}:\nab\n ^\n\n", name)
        );
    }
}

#[test]
fn the_trace_names_line_and_column() {
    let input = "a = (x)\nb = (y\nc = (z)";
    let err = Error {
        errors: vec![(14, Kind::Char(')')), (8, Kind::Context(Message::TypeDeclaration))],
    };
    assert_eq!(
        convert_error(input, err),
        "0: at line 1:\nb = (y\n      ^\nexpected ')', found \n\n\n\
         1: at line 1, in Expected Product or Sum type declaration:\nb = (y\n^\n\n"
    );
}

#[test]
fn positions_behind_the_input_count_as_its_end() {
    let err = Error { errors: vec![(99, Kind::Char('(')), (50, Kind::Context(Message::IdStart))] };
    assert_eq!(
        convert_error("ab", err),
        "0: at line 0, in Unexpected end of input:\nab\n  ^\n\n\
         1: at line 0, in Id should start with alpha character:\nab\n  ^\n\n"
    );
}

#[test]
fn the_empty_input_has_no_line_to_show() {
    let err = Error { errors: vec![(0, Kind::Char('=')), (3, Kind::Context(Message::TypeIdStart))] };
    assert_eq!(
        convert_error("", err),
        "0: expected '=', got empty input\n\n\
         1: in Type Id should start with lowercase character, got empty input\n\n"
    );
    assert_eq!(Error { errors: vec![] }.render("anything"), "");
}

#[test]
fn every_message_has_its_words() {
    assert_eq!(Message::AtLeastOneType.text(), "Expected at least one type declaration");
    assert_eq!(Message::CommentStart.text(), "Comment line should start with '//'");
    assert_eq!(Message::TypeDeclaration.text(), "Expected Product or Sum type declaration");
    assert_eq!(Message::FieldEnd.text(), "Expected * ? ) , or whitespace.");
    assert_eq!(Message::TypeIdStart.text(), "Type Id should start with lowercase character");
    assert_eq!(
        Message::ConstrIdStart.text(),
        "Constructor Id should start with uppercase character"
    );
    assert_eq!(Message::IdStart.text(), "Id should start with alpha character");
    assert_eq!(Message::EndOfInput.text(), "Unexpected end of input");
    assert_eq!(Kind::Context(Message::IdStart).to_frame(), Frame::Context(Message::IdStart.text()));
    assert_eq!(Kind::Char('x').to_frame(), Frame::Char('x'));
    assert_eq!(Kind::Nom(Code::IsA).to_frame(), Frame::Nom(Code::IsA));
}

#[test]
fn positions_are_counted_in_characters() {
    let input = "é = (€";
    let (root, diagnostics) = asdl::parser::parse(input);
    assert_eq!(root.types.len(), 0);
    assert_eq!(diagnostics.len(), 1);
    assert_eq!(diagnostics[0].errors[0], (5, Kind::Context(Message::TypeIdStart)));
    assert!(convert_error(input, diagnostics[0].clone())
        .starts_with("0: at line 0, in Type Id should start with lowercase character:\né = (€\n"));
    let input = "ä = (ö €)";
    let (_, diagnostics) = asdl::parser::parse(input);
    assert_eq!(diagnostics[0].errors[0], (7, Kind::Char(')')));
    assert!(convert_error(input, diagnostics[0].clone()).contains("expected ')', found €"));
}
