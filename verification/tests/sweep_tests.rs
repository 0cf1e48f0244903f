use asdl::diagnostics::convert_error;
use asdl::lexer::{tokenize, TokenKind};
use asdl::model::Type;
use asdl::{model, template};

const PIECES: [&str; 24] = [
    "a", "b1", "Ab", "C", "=", "(", ")", "|", "?", "*", ",", " ", "  ", "\n", "\r\n", "\t", "//",
    "// c", "/", "_", "&", "é", "attributes", "9",
];

fn next(seed: &mut u64) -> usize {
    *seed = seed.wrapping_mul(6364136223846793005).wrapping_add(1442695040888963407);
    (*seed >> 33) as usize
}

fn text(seed: &mut u64) -> String {
    let pieces = next(seed) % 14;
    let mut s = String::new();
    for _ in 0..pieces {
        s.push_str(PIECES[next(seed) % PIECES.len()]);
    }
    s
}

#[test]
fn any_text_is_read_to_the_end() {
    let mut seed = 7;
    for _ in 0..20000 {
        let input = text(&mut seed);
        let len = input.chars().count();
        let tokens = tokenize(&input);
        let joined: String = tokens
            .iter()
            .map(|t| input.chars().skip(t.start).take(t.end - t.start).collect::<String>())
            .collect();
        assert_eq!(joined, input);
        for pair in tokens.windows(2) {
            assert!(
                pair[0].kind != TokenKind::Whitespace || pair[1].kind != TokenKind::Whitespace
            );
        }

        let (model, diagnostics) = model(&input);
        for d in diagnostics.iter() {
            assert!(!d.errors.is_empty());
            assert!(d.errors.iter().all(|e| e.0 <= len));
            assert!(!convert_error(&input, d.clone()).is_empty());
        }
        if diagnostics.is_empty() {
            let signs = tokens.iter().filter(|t| t.kind == TokenKind::Equals).count();
            assert_eq!(model.types.len(), signs, "{:?}", input);
            assert!(tokens.iter().all(|t| t.kind != TokenKind::Error), "{:?}", input);
        }
        for t in model.types.iter() {
            let lists: Vec<&Vec<asdl::Field>> = match t {
                Type::ProdType(p) => vec![&p.fields],
                Type::SumType(s) => {
                    let mut all: Vec<&Vec<asdl::Field>> =
                        s.constructors.iter().map(|c| &c.fields).collect();
                    all.push(&s.attributes);
                    all
                }
            };
            for fields in lists {
                assert!(fields.iter().all(|f| f.id.starts_with(char::is_alphabetic)));
            }
        }
        let by_name = template::Asdl::new(model);
        for name in by_name.sum_types.iter().chain(by_name.prod_types.iter()) {
            assert!(by_name.get_type_by_name(name).is_some());
        }
    }
}

#[test]
fn declarations_written_one_after_the_other_are_all_read() {
    let mut seed = 11;
    for _ in 0..2000 {
        let count = next(&mut seed) % 6;
        let mut input = String::new();
        let mut arities = Vec::new();
        for d in 0..count {
            if next(&mut seed) % 2 == 0 {
                input.push_str(&format!("// about t{}\n", d));
            }
            let mark = ["", "?", "*"][next(&mut seed) % 3];
            arities.push(mark);
            if next(&mut seed) % 2 == 0 {
                input.push_str(&format!("t{} = (x{} f, y)\n", d, mark));
            } else {
                input.push_str(&format!("t{} = A | B(x{}) attributes(y)\n\n", d, mark));
            }
        }
        let (model, diagnostics) = model(&input);
        assert!(diagnostics.is_empty(), "{:?}", input);
        assert_eq!(model.types.len(), count);
        for (d, t) in model.types.iter().enumerate() {
            let first = match t {
                Type::ProdType(p) => &p.fields[0],
                Type::SumType(s) => &s.constructors[1].fields[0],
            };
            let expected = match arities[d] {
                "?" => asdl::Arity::Optional,
                "*" => asdl::Arity::Repeated,
                _ => asdl::Arity::Required,
            };
            assert_eq!(first.arity, expected);
            assert_eq!(t.id(), format!("t{}", d));
        }
    }
}
