use asdl::ast::{
    Constr, ConstrId, Field, Id, Optional, ProdType, Repeated, Required, Root, SumType, TypeId,
};
use asdl::diagnostics::{convert_error, Error, Kind, Message};
use asdl::parser::{parse, Parser};

fn assert_trace(input: &str, err: Error, expected: &str) {
    assert_eq!(convert_error(input, err).trim(), expected.trim());
}

fn required<'a>(type_id: &'a str, name: Option<&'a str>) -> Field<'a> {
    Required::new(TypeId(type_id), name.map(Id)).into()
}

fn optional<'a>(type_id: &'a str, name: Option<&'a str>) -> Field<'a> {
    Optional::new(TypeId(type_id), name.map(Id)).into()
}

fn repeated<'a>(type_id: &'a str, name: Option<&'a str>) -> Field<'a> {
    Repeated::new(TypeId(type_id), name.map(Id)).into()
}

#[test]
fn parser_parse_type_id() {
    let p = Parser::new("aBcd1_Efg");
    assert_eq!(p.type_id(0).map(|(n, v)| (p.rest(n), v)), Ok(("", TypeId("aBcd1_Efg"))));
    let p = Parser::new("aBcd1,Efg");
    assert_eq!(p.type_id(0).map(|(n, v)| (p.rest(n), v)), Ok((",Efg", TypeId("aBcd1"))));
    let input = "ABcd1Efg";
    let p = Parser::new(input);
    let err = p.type_id(0).unwrap_err();
    assert_eq!(err.errors, vec![(0, Kind::Context(Message::TypeIdStart))]);
    assert_trace(
        input,
        err,
        "
0: at line 0, in Type Id should start with lowercase character:
ABcd1Efg
^
            ",
    );
}

#[test]
fn parser_parse_con_id() {
    let p = Parser::new("ABcd1_Efg");
    assert_eq!(p.con_id(0).map(|(n, v)| (p.rest(n), v)), Ok(("", ConstrId("ABcd1_Efg"))));
    let p = Parser::new("ABcd1,Efg");
    assert_eq!(p.con_id(0).map(|(n, v)| (p.rest(n), v)), Ok((",Efg", ConstrId("ABcd1"))));
    let input = "aBcd1Efg";
    let p = Parser::new(input);
    assert_trace(
        input,
        p.con_id(0).unwrap_err(),
        "
0: at line 0, in Constructor Id should start with uppercase character:
aBcd1Efg
^
            ",
    );
}

#[test]
fn parser_parse_id() {
    let p = Parser::new("ABcd1_Efg");
    assert_eq!(p.id(0).map(|(n, v)| (p.rest(n), v)), Ok(("", Id("ABcd1_Efg"))));
    let p = Parser::new("ABcd1,Efg");
    assert_eq!(p.id(0).map(|(n, v)| (p.rest(n), v)), Ok((",Efg", Id("ABcd1"))));
    let p = Parser::new("aBcd1_Efg");
    assert_eq!(p.id(0).map(|(n, v)| (p.rest(n), v)), Ok(("", Id("aBcd1_Efg"))));
    let p = Parser::new("aBcd1,Efg");
    assert_eq!(p.id(0).map(|(n, v)| (p.rest(n), v)), Ok((",Efg", Id("aBcd1"))));
    let input = "_aBcd1Efg";
    let p = Parser::new(input);
    assert_trace(
        input,
        p.id(0).unwrap_err(),
        "
0: at line 0, in Id should start with alpha character:
_aBcd1Efg
^
            ",
    );
}

#[test]
fn parser_parse_field() {
    let p = Parser::new("type,");
    assert_eq!(p.field(0).map(|(n, v)| (p.rest(n), v)), Ok((",", required("type", None))));
    let p = Parser::new("type?,");
    assert_eq!(p.field(0).map(|(n, v)| (p.rest(n), v)), Ok((",", optional("type", None))));
    let p = Parser::new("type*,");
    assert_eq!(p.field(0).map(|(n, v)| (p.rest(n), v)), Ok((",", repeated("type", None))));
    let p = Parser::new("type)");
    assert_eq!(p.field(0).map(|(n, v)| (p.rest(n), v)), Ok((")", required("type", None))));
    let p = Parser::new("type ");
    assert_eq!(p.field(0).map(|(n, v)| (p.rest(n), v)), Ok((" ", required("type", None))));

    let p = Parser::new("type  name,");
    assert_eq!(
        p.field(0).map(|(n, v)| (p.rest(n), v)),
        Ok((",", required("type", Some("name"))))
    );
    let p = Parser::new("type?  name,");
    assert_eq!(
        p.field(0).map(|(n, v)| (p.rest(n), v)),
        Ok((",", optional("type", Some("name"))))
    );
    let p = Parser::new("type*  name,");
    assert_eq!(
        p.field(0).map(|(n, v)| (p.rest(n), v)),
        Ok((",", repeated("type", Some("name"))))
    );
    let input = "type+  name";
    let p = Parser::new(input);
    assert_trace(
        input,
        p.field(0).unwrap_err(),
        "
0: at line 0, in Expected * ? ) , or whitespace.:
type+  name
    ^
            ",
    );
}

#[test]
fn parser_parse_fields() {
    let p = Parser::new(" ( type1, type2? name  ) ");
    assert_eq!(
        p.fields(0).map(|(n, v)| (p.rest(n), v)),
        Ok(("", vec![required("type1", None), optional("type2", Some("name"))]))
    );
    let input = " ( type1 type2? name  ) ";
    let p = Parser::new(input);
    assert_trace(
        input,
        p.fields(0).unwrap_err(),
        "
0: at line 0:
 ( type1 type2? name  ) 
              ^
expected ')', found ?
            ",
    );
}

#[test]
fn parser_parse_constructor() {
    let p = Parser::new("ConstrId( type1, type2? name  ) ");
    assert_eq!(
        p.constructor(0).map(|(n, v)| (p.rest(n), v)),
        Ok((
            "",
            Constr::new(
                ConstrId("ConstrId"),
                vec![required("type1", None), optional("type2", Some("name"))],
                vec![]
            )
        ))
    );
    let p = Parser::new("ConstrId");
    assert_eq!(
        p.constructor(0).map(|(n, v)| (p.rest(n), v)),
        Ok(("", Constr::new(ConstrId("ConstrId"), vec![], vec![])))
    );
    let input = "ConstrId1( type1,";
    let p = Parser::new(input);
    assert_trace(
        input,
        p.constructor(0).unwrap_err(),
        "
0: at line 0:
ConstrId1( type1,
                ^
expected ')', found ,
            ",
    );
}

#[test]
fn parser_parse_constructors() {
    let p = Parser::new("ConstrId1( type1, type2? name  ) | ConstrId2");
    assert_eq!(
        p.constructors(0).map(|(n, v)| (p.rest(n), v)),
        Ok((
            "",
            vec![
                Constr::new(
                    ConstrId("ConstrId1"),
                    vec![required("type1", None), optional("type2", Some("name"))],
                    vec![]
                ),
                Constr::new(ConstrId("ConstrId2"), vec![], vec![])
            ]
        ))
    );
    let input = "ConstrId1( type1, type2? name    ConstrId2";
    let p = Parser::new(input);
    assert_trace(
        input,
        p.constructors(0).unwrap_err(),
        "
0: at line 0:
ConstrId1( type1, type2? name    ConstrId2
                                 ^
expected ')', found C
            ",
    );
}

#[test]
fn parse_comment_line() {
    let asdl = "  //comment line1";
    let p = Parser::new(asdl);
    assert_eq!(p.comment_line(0).map(|(n, v)| (p.rest(n), v)), Ok(("", "comment line1")));
    let input = "/comment line1";
    let p = Parser::new(input);
    assert_trace(
        input,
        p.comment_line(0).unwrap_err(),
        "
0: at line 0, in Comment line should start with '//':
/comment line1
^
            ",
    );
}

#[test]
fn parse_comments() {
    let asdl = "  // comment line1
                        // comment line2";
    let p = Parser::new(asdl);
    assert_eq!(
        p.comments(0).map(|(n, v)| (p.rest(n), v)),
        Ok(("", vec!["comment line1", "comment line2"]))
    );
}

#[test]
fn parse_constructors_with_comments() {
    let asdl = r"  // ConstrId1 comment
                        ConstrId1( type1, type2? name  ) |
                        // ConstrId2 comment line1
                        // ConstrId2 comment line2
                        ConstrId2";
    let p = Parser::new(asdl);
    assert_eq!(
        p.constructors(0).map(|(n, v)| (p.rest(n), v)),
        Ok((
            "",
            vec![
                Constr::new(
                    ConstrId("ConstrId1"),
                    vec![required("type1", None), optional("type2", Some("name"))],
                    vec!["ConstrId1 comment"]
                ),
                Constr::new(
                    ConstrId("ConstrId2"),
                    vec![],
                    vec!["ConstrId2 comment line1", "ConstrId2 comment line2"]
                )
            ]
        ))
    );
}

#[test]
fn parse_sum_type() {
    let asdl = r"
                    // SumType comment line 1
                    // SumType comment line 2
                    sumType = 
                        // ConstrId1 comment
                        ConstrId1( type1, type2? name  ) |
                        // ConstrId2 comment line1
                        // ConstrId2 comment line2
                        ConstrId2";
    let p = Parser::new(asdl);
    assert_eq!(
        p.sum_type(0).map(|(n, v)| (p.rest(n), v)),
        Ok((
            "",
            SumType::new(
                TypeId("sumType"),
                vec![
                    Constr::new(
                        ConstrId("ConstrId1"),
                        vec![required("type1", None), optional("type2", Some("name"))],
                        vec!["ConstrId1 comment"]
                    ),
                    Constr::new(
                        ConstrId("ConstrId2"),
                        vec![],
                        vec!["ConstrId2 comment line1", "ConstrId2 comment line2"]
                    )
                ],
                None,
                vec!["SumType comment line 1", "SumType comment line 2"]
            )
        ))
    );
}

#[test]
fn parse_prod_type() {
    let asdl = r#"  // prodType comment line 1
                        // prodType comment line 2
                        prodType = ( type1, type2? name  )"#;
    let p = Parser::new(asdl);
    assert_eq!(
        p.prod_type(0).map(|(n, v)| (p.rest(n), v)),
        Ok((
            "",
            ProdType::new(
                TypeId("prodType"),
                vec![required("type1", None), optional("type2", Some("name"))],
                vec!["prodType comment line 1", "prodType comment line 2"]
            )
        ))
    );
}

#[test]
fn parse_empty_asdl() {
    let asdl = "";
    assert_eq!(parse(asdl), (Root::new(vec![], vec![]), vec![]));
}

#[test]
fn parse_error_invalid_single_type() {
    let asdl = r"
// comment line 1
// comment line 2
notType&";
    let (root, mut diagnostics) = parse(asdl);
    assert_eq!(root, Root::new(vec![], vec![]));
    assert_eq!(diagnostics.len(), 1);
    assert_trace(
        asdl,
        diagnostics.remove(0),
        r"
0: at line 3:
notType&
       ^
expected '=', found &

1: at line 3, in Expected Product or Sum type declaration:
notType&
^

2: at line 3, in Expected at least one type declaration:
notType&
^
            ",
    );
}

#[test]
fn char_ms0_skips_whitespace_on_both_sides() {
    let p = Parser::new("  =  x");
    assert_eq!(p.char_ms0('=', 0).map(|n| p.rest(n)), Ok("x"));
    let p = Parser::new("  x");
    assert_eq!(p.char_ms0('=', 0).unwrap_err().errors, vec![(2, Kind::Char('='))]);
}

#[test]
fn expected_character_at_the_end_of_the_input() {
    let input = "foo";
    let (root, mut diagnostics) = parse(input);
    assert_eq!(root.types.len(), 0);
    assert_eq!(diagnostics.len(), 1);
    let err = diagnostics.remove(0);
    assert_eq!(err.errors[0], (3, Kind::Char('=')));
    let text = convert_error(input, err);
    assert!(text.starts_with("0: at line 0, in Unexpected end of input:\nfoo\n   ^\n"));
}

#[test]
fn resilience_reads_on_behind_a_fault() {
    let input = "notType&\nfoo = (a)\nbar = A | B";
    let (root, diagnostics) = parse(input);
    assert_eq!(diagnostics.len(), 1);
    assert_eq!(diagnostics[0].errors[0], (7, Kind::Char('=')));
    assert!(convert_error(input, diagnostics[0].clone()).contains("found &"));
    assert_eq!(root.types.len(), 2);
}

#[test]
fn a_fault_inside_a_declaration_leaves_the_others() {
    let input = "first = (a b c)\nsecond = (x)\nthird = One(y z w) | Two\nfourth = Last";
    let (root, diagnostics) = parse(input);
    assert_eq!(diagnostics.len(), 2);
    assert_eq!(root.types.len(), 2);
    assert_eq!(diagnostics[0].errors.len(), 3);
    assert_eq!(diagnostics[1].errors.len(), 2);
}

#[test]
fn whitespace_and_comments_alone_are_no_fault() {
    let (root, diagnostics) = parse("  \n\t ");
    assert_eq!(root, Root::new(vec![], vec![]));
    assert!(diagnostics.is_empty());
    let (root, diagnostics) = parse("// only a comment\n");
    assert_eq!(root, Root::new(vec![], vec!["only a comment"]));
    assert!(diagnostics.is_empty());
    let (root, diagnostics) = parse("a = (x)\n// behind the last declaration\n");
    assert_eq!(root.types.len(), 1);
    assert!(diagnostics.is_empty());
}

#[test]
fn comment_stripping_takes_one_blank_at_most() {
    let (root, diagnostics) = parse("//  two blanks\n//none\n// one\t\nfoo = (a)");
    assert!(diagnostics.is_empty());
    assert_eq!(root.comments.len(), 0);
    match &root.types[0] {
        asdl::ast::Type::ProdType(t) => {
            assert_eq!(t.comments, vec![" two blanks", "none", "one\t"]);
        }
        _ => panic!("expected a product type"),
    }
}

#[test]
fn a_comment_block_apart_belongs_to_the_text() {
    let (root, diagnostics) = parse("// about the text\n\n// about foo\nfoo = (a)");
    assert!(diagnostics.is_empty());
    assert_eq!(root.comments, vec!["about the text"]);
    match &root.types[0] {
        asdl::ast::Type::ProdType(t) => assert_eq!(t.comments, vec!["about foo"]),
        _ => panic!("expected a product type"),
    }
}

#[test]
fn the_keyword_is_a_whole_word() {
    let (root, diagnostics) = parse("s = A attributes(x)\nt = B attributesx\n");
    assert_eq!(root.types.len(), 2);
    match &root.types[0] {
        asdl::ast::Type::SumType(t) => assert!(t.attrs.is_some()),
        _ => panic!("expected a sum type"),
    }
    assert_eq!(diagnostics.len(), 1);
}

#[test]
fn behind_a_fault_a_declaration_keeps_its_comment() {
    let (root, diagnostics) = parse("x&\n// about foo\n// more\nfoo = (a)\ny = (\n\n// apart\n\nz = A");
    assert_eq!(diagnostics.len(), 2);
    assert_eq!(root.types.len(), 2);
    match &root.types[0] {
        asdl::ast::Type::ProdType(t) => {
            assert_eq!(t.type_id, TypeId("foo"));
            assert_eq!(t.comments, vec!["about foo", "more"]);
        }
        _ => panic!("expected a product type"),
    }
    match &root.types[1] {
        asdl::ast::Type::SumType(t) => {
            assert_eq!(t.type_id, TypeId("z"));
            assert_eq!(t.comments, vec!["apart"]);
        }
        _ => panic!("expected a sum type"),
    }
}

#[test]
fn a_comment_block_that_another_follows_is_passed_over() {
    let input = "a = (x)\n// on its own\n\n// about b\nb = One |\n // apart\n\n // about Two\n Two";
    let (root, diagnostics) = parse(input);
    assert!(diagnostics.is_empty());
    assert_eq!(root.types.len(), 2);
    match &root.types[1] {
        asdl::ast::Type::SumType(t) => {
            assert_eq!(t.comments, vec!["about b"]);
            assert_eq!(t.constructors[1].comments, vec!["about Two"]);
        }
        _ => panic!("expected a sum type"),
    }
}

#[test]
fn a_list_in_parentheses_holds_one_field_at_least() {
    let input = "()";
    let p = Parser::new(input);
    assert_eq!(p.fields(0).unwrap_err().errors, vec![(1, Kind::Context(Message::TypeIdStart))]);
    let p = Parser::new("( )");
    assert_eq!(p.fields(0).unwrap_err().errors, vec![(2, Kind::Context(Message::TypeIdStart))]);
    let p = Parser::new("A()");
    assert!(p.constructor(0).is_err());
    let p = Parser::new("(a)");
    assert_eq!(p.fields(0).map(|(n, v)| (p.rest(n), v)), Ok(("", vec![required("a", None)])));

    for text in ["a = ()", "s = A()", "s = A | B ( )", "s = A attributes()"] {
        let (_, diagnostics) = parse(text);
        assert_eq!(diagnostics.len(), 1, "{:?}", text);
    }
    let (root, diagnostics) = parse("a = ()\nb = (x)");
    assert_eq!(root.types.len(), 1);
    assert_eq!(
        diagnostics[0].errors,
        vec![
            (5, Kind::Context(Message::TypeIdStart)),
            (0, Kind::Context(Message::TypeDeclaration)),
            (0, Kind::Context(Message::AtLeastOneType)),
        ]
    );
}

#[test]
fn names_begin_with_a_letter_of_any_script() {
    let p = Parser::new("é,");
    assert_eq!(p.type_id(0).map(|(n, v)| (p.rest(n), v)), Ok((",", TypeId("é"))));
    let p = Parser::new("éa_1ü");
    assert_eq!(p.type_id(0).map(|(n, v)| (p.rest(n), v)), Ok(("ü", TypeId("éa_1"))));
    let p = Parser::new("é*,");
    assert_eq!(p.field(0).map(|(n, v)| (p.rest(n), v)), Ok((",", repeated("é", None))));
    let p = Parser::new("Éa(x)");
    assert_eq!(
        p.constructor(0).map(|(n, v)| (p.rest(n), v)),
        Ok(("", Constr::new(ConstrId("Éa"), vec![required("x", None)], vec![])))
    );
    let p = Parser::new("É");
    assert!(p.type_id(0).is_err());
    let p = Parser::new("é");
    assert!(p.con_id(0).is_err());
    for other in ["€", "1", "_", "{", "~", "\u{7f}", "ª1"] {
        let p = Parser::new(other);
        assert_eq!(p.con_id(0).is_err(), true, "{:?}", other);
    }
    let (root, diagnostics) = parse("é = (x)\nδ = Ω(é?) | Я");
    assert!(diagnostics.is_empty());
    assert_eq!(root.types.len(), 2);
}
