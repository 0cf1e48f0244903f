use asdl::model::{Arity, Asdl, Constructor, Field, ProdType, SumType, Type};
use asdl::names::FieldNames;
use asdl::ast::{kind_name, SyntaxKind};
use asdl::workspace::{begins_properly, directory_above};
use asdl::{ast, model, template};

fn field(id: &str, type_id: &str, arity: Arity) -> Field {
    Field { id: id.to_string(), type_id: type_id.to_string(), arity }
}

fn lines(lines: &[&str]) -> Vec<String> {
    lines.iter().map(|l| l.to_string()).collect()
}

#[test]
fn lib_simple_successful_test() {
    let asdl = r"
            // Root comment line 1
            // Root comment line 2

            // stm comment line 1
            // stm comment line 2
            stm = 
                // Compound comment line 1
                // Compound comment line 2
                Compound(stm s1, stm* s2) |
                // Single comment line 1
                // Single comment line 2 
                Single(stm)

            // noFields comment line 1
            // noFields comment line 2
            noFields = One | Two | Three

            // prodType comment line 1
            // prodType comment line 2
            prodType = (noFields? f, stm s1)
            ";
    let root = model::ast(asdl).unwrap();
    assert_eq!(root.types.len(), 3);
    assert_eq!(root.comments, vec!["Root comment line 1", "Root comment line 2"]);
    let model = Asdl::new(&root);
    let expected = Asdl {
        types: vec![
            Type::SumType(SumType {
                id: "stm".to_string(),
                constructors: vec![
                    Constructor {
                        id: "Compound".to_string(),
                        fields: vec![
                            field("s1", "stm", Arity::Required),
                            field("s2", "stm", Arity::Repeated),
                        ],
                        comments: lines(&["Compound comment line 1", "Compound comment line 2"]),
                    },
                    Constructor {
                        id: "Single".to_string(),
                        fields: vec![field("stm", "stm", Arity::Required)],
                        comments: lines(&["Single comment line 1", "Single comment line 2 "]),
                    },
                ],
                attributes: vec![],
                comments: lines(&["stm comment line 1", "stm comment line 2"]),
            }),
            Type::SumType(SumType {
                id: "noFields".to_string(),
                constructors: vec![
                    Constructor { id: "One".to_string(), fields: vec![], comments: vec![] },
                    Constructor { id: "Two".to_string(), fields: vec![], comments: vec![] },
                    Constructor { id: "Three".to_string(), fields: vec![], comments: vec![] },
                ],
                attributes: vec![],
                comments: lines(&["noFields comment line 1", "noFields comment line 2"]),
            }),
            Type::ProdType(ProdType {
                id: "prodType".to_string(),
                fields: vec![
                    field("f", "noFields", Arity::Optional),
                    field("s1", "stm", Arity::Required),
                ],
                comments: lines(&["prodType comment line 1", "prodType comment line 2"]),
            }),
        ],
        comments: lines(&["Root comment line 1", "Root comment line 2"]),
    };
    assert_eq!(model, expected);
    assert_eq!(Asdl::parse(asdl).unwrap(), expected);
}

#[test]
fn lib_attributes() {
    let asdl = r"
            stm = Compound(stm s1, stm* s2)
                | Single(stm)
                  attributes(prodType?)
            prodType = (stm s1)
            ";
    let root = model::ast(asdl).unwrap();
    match &root.types[0] {
        ast::Type::SumType(t) => {
            let attrs = t.attrs.as_ref().unwrap();
            assert_eq!(
                attrs.fields,
                vec![ast::Field::Optional(ast::Optional::new(ast::TypeId("prodType"), None))]
            );
        }
        _ => panic!("expected a sum type"),
    }
    let model = Asdl::new(&root);
    assert_eq!(model.types.len(), 2);
    match &model.types[0] {
        Type::SumType(t) => {
            assert_eq!(t.attributes, vec![field("prodType", "prodType", Arity::Optional)]);
            assert_eq!(t.constructors.len(), 2);
            assert_eq!(t.constructors[0].fields.len(), 2);
            assert_eq!(t.constructors[1].fields, vec![field("stm", "stm", Arity::Required)]);
        }
        _ => panic!("expected a sum type"),
    }
    assert_eq!(
        model.types[1],
        Type::ProdType(ProdType {
            id: "prodType".to_string(),
            fields: vec![field("s1", "stm", Arity::Required)],
            comments: vec![],
        })
    );
}

#[test]
fn names_are_numbered_from_the_second_unnamed_field_on() {
    let model = Asdl::parse("pair = (int, int)").unwrap();
    match &model.types[0] {
        Type::ProdType(t) => {
            assert_eq!(t.fields[0].id, "int");
            assert_eq!(t.fields[1].id, "int1");
        }
        _ => panic!("expected a product type"),
    }
    let many = format!("many = ({})", vec!["x"; 12].join(", "));
    let model = Asdl::parse(&many).unwrap();
    match &model.types[0] {
        Type::ProdType(t) => {
            let names: Vec<&str> = t.fields.iter().map(|f| f.id.as_str()).collect();
            assert_eq!(
                names,
                vec!["x", "x1", "x2", "x3", "x4", "x5", "x6", "x7", "x8", "x9", "x10", "x11"]
            );
        }
        _ => panic!("expected a product type"),
    }
}

#[test]
fn given_names_are_kept_and_do_not_count() {
    let model = Asdl::parse("t = (a x, a, b a, a, a? y, a*)").unwrap();
    match &model.types[0] {
        Type::ProdType(t) => {
            let names: Vec<&str> = t.fields.iter().map(|f| f.id.as_str()).collect();
            assert_eq!(names, vec!["x", "a", "a", "a1", "y", "a2"]);
            let arities: Vec<Arity> = t.fields.iter().map(|f| f.arity).collect();
            assert_eq!(
                arities,
                vec![
                    Arity::Required,
                    Arity::Required,
                    Arity::Required,
                    Arity::Required,
                    Arity::Optional,
                    Arity::Repeated
                ]
            );
        }
        _ => panic!("expected a product type"),
    }
}

#[test]
fn every_list_is_named_on_its_own() {
    let model = Asdl::parse("s = A(t, t) | B(t) attributes(t, t)").unwrap();
    match &model.types[0] {
        Type::SumType(t) => {
            assert_eq!(t.constructors[0].fields[1].id, "t1");
            assert_eq!(t.constructors[1].fields[0].id, "t");
            assert_eq!(t.attributes[0].id, "t");
            assert_eq!(t.attributes[1].id, "t1");
        }
        _ => panic!("expected a sum type"),
    }
}

#[test]
fn get_or_generate_counts_per_type() {
    let mut names = FieldNames::default();
    let a = ast::TypeId("a");
    let b = ast::TypeId("b");
    assert_eq!(names.get_or_generate(&None, &a), "a");
    assert_eq!(names.get_or_generate(&Some(ast::Id("given")), &a), "given");
    assert_eq!(names.get_or_generate(&None, &b), "b");
    assert_eq!(names.get_or_generate(&None, &a), "a1");
    assert_eq!(names.get_or_generate(&None, &a), "a2");
    assert_eq!(names.get_or_generate(&None, &b), "b1");
}

#[test]
fn declaration_count_and_arities_follow_the_text() {
    let text = "a = (x, y? n, z*)\nb = One(a) | Two(a*, a?)\nc = (a)";
    let (model, diagnostics) = model(text);
    assert!(diagnostics.is_empty());
    assert_eq!(model.types.len(), 3);
    match &model.types[1] {
        Type::SumType(t) => {
            assert_eq!(t.constructors[1].fields[0].arity, Arity::Repeated);
            assert_eq!(t.constructors[1].fields[1].arity, Arity::Optional);
        }
        _ => panic!("expected a sum type"),
    }
}

#[test]
fn a_text_with_a_fault_gives_its_traces() {
    let text = "notType&\nfoo = (a)";
    let err = Asdl::parse(text).unwrap_err();
    assert!(err.to_string().starts_with("0: at line 0:\nnotType&\n       ^\nexpected '=', found &\n\n"));
    assert_eq!(err.description(), err.to_string());
    let (model, diagnostics) = model(text);
    assert_eq!(diagnostics.len(), 1);
    assert_eq!(model.get_type_by_name("foo").map(|t| t.id()), Some("foo".to_string()));
    assert!(model.get_type_by_name("notType").is_none());
}

#[test]
fn of_two_declarations_of_a_name_the_last_counts() {
    let model = Asdl::parse("a = (x)\nb = (y)\na = One | Two").unwrap();
    assert_eq!(model.types.len(), 3);
    match model.get_type_by_name("a") {
        Some(Type::SumType(t)) => assert_eq!(t.constructors.len(), 2),
        _ => panic!("expected the sum type"),
    }
    assert!(model.get_type_by_name("c").is_none());

    let by_name = template::Asdl::new(model);
    assert_eq!(by_name.prod_types, vec!["a", "b"]);
    assert_eq!(by_name.sum_types, vec!["a"]);
    match by_name.get_type_by_name("a") {
        Some(template::Type::SumType(t)) => assert!(!t.is_prod_type),
        _ => panic!("expected the sum type"),
    }
    match by_name.get_type_by_name("b") {
        Some(template::Type::ProdType(t)) => {
            assert!(t.is_prod_type);
            assert!(t.fields[0].is_required && !t.fields[0].is_optional && !t.fields[0].is_repeated);
        }
        _ => panic!("expected the product type"),
    }
}

#[test]
fn template_model_has_one_flag_per_arity() {
    let by_name = template::Asdl::parse("// top\n\nt = (a, b?, c*)").unwrap();
    assert_eq!(by_name.comments, vec!["top"]);
    match by_name.get_type_by_name("t") {
        Some(template::Type::ProdType(t)) => {
            let flags: Vec<(bool, bool, bool)> =
                t.fields.iter().map(|f| (f.is_required, f.is_optional, f.is_repeated)).collect();
            assert_eq!(
                flags,
                vec![(true, false, false), (false, true, false), (false, false, true)]
            );
        }
        _ => panic!("expected the product type"),
    }
    match template::Asdl::parse("t = ") {
        Ok(_) => panic!("expected the traces of the diagnostics"),
        Err(err) => assert!(err
            .description()
            .contains("Constructor Id should start with uppercase character")),
    }
}

#[test]
fn kind_names() {
    assert_eq!(kind_name(SyntaxKind::SumType), "SumType");
    assert_eq!(kind_name(SyntaxKind::Sequence), "Sequence");
    assert_eq!(kind_name(SyntaxKind::ConstrId), "ConstrId");
}

#[test]
fn project_root_is_the_directory_above() {
    assert_eq!(asdl::project_root("/work/asdl/asdl_tests"), Some("/work/asdl".to_string()));
    assert_eq!(asdl::project_root(""), None);
}

#[test]
fn an_answer_stands_only_as_a_proper_beginning() {
    let dir = "/work/asdl/asdl_tests";
    assert_eq!(directory_above(dir, Some("/work/asdl".to_string())), Some("/work/asdl".to_string()));
    assert_eq!(directory_above(dir, Some(String::new())), Some(String::new()));
    assert_eq!(directory_above(dir, Some("/work/other".to_string())), None);
    assert_eq!(directory_above(dir, Some(dir.to_string())), None);
    assert_eq!(directory_above(dir, Some("/work/asdl/asdl_tests/x".to_string())), None);
    assert_eq!(directory_above(dir, None), None);
    assert_eq!(directory_above("", Some(String::new())), None);
    assert!(begins_properly("é/a", "é/a/b"));
    assert!(!begins_properly("e/a", "é/a/b"));
    assert!(!begins_properly("a", "a"));
}
