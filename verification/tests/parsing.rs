use ml_interface::language::{Command, Term, Token, Type};
use ml_interface::lexer::lexer;
use ml_interface::parser::pattern_parser::make_pattern_parser;
use ml_interface::parser::program_parser::{make_command_parser, make_program_parser};
use ml_interface::parser::term_parser::{make_bind_parser, make_cases_parser, make_term_parser};
use ml_interface::parser::type_parser::{make_cons_parser, make_type_parser};
use ml_interface::parser::util::{construct_poly_for_free_vars, Expected, ParseError};

fn term_text(src: &str) -> String {
    let term = make_term_parser(&lexer(src).unwrap()).unwrap();
    assert!(term.content.is_printable());
    term.content.to_pretty(200)
}

fn type_text(src: &str) -> String {
    make_type_parser(&lexer(src).unwrap()).unwrap().content.to_string()
}

fn pattern_text(src: &str) -> String {
    make_pattern_parser(&lexer(src).unwrap()).unwrap().content.to_string()
}

fn shape(src: &str) -> String {
    fn go(t: &Term) -> String {
        match t {
            Term::Int(i) => format!("{}", i),
            Term::Bool(b) => format!("{}", b),
            Term::Unit => "()".to_string(),
            Term::Var(n) => n.clone(),
            Term::NativeCons(n) => n.clone(),
            Term::PrimOp { op, params } => {
                let ps: Vec<String> = params.iter().map(|p| go(&p.content)).collect();
                format!("[{} {}]", op, ps.join(" "))
            }
            Term::App(f, x) => format!("({} {})", go(&f.content), go(&x.content)),
            Term::Tuple(ts) => {
                let ps: Vec<String> = ts.iter().map(|p| go(&p.content)).collect();
                format!("<{}>", ps.join(", "))
            }
            _ => "?".to_string(),
        }
    }
    go(&make_term_parser(&lexer(src).unwrap()).unwrap().content)
}

#[test]
fn operators_follow_the_table() {
    assert_eq!(shape("1 + 2 * 3"), "[+ 1 [* 2 3]]");
    assert_eq!(shape("1 * 2 + 3"), "[+ [* 1 2] 3]");
    assert_eq!(shape("1 - 2 - 3"), "[- [- 1 2] 3]");
    assert_eq!(shape("a / b * c"), "[* [/ a b] c]");
    assert_eq!(shape("- a * b"), "[* [- a] b]");
    assert_eq!(shape("not a == b"), "[not [== a b]]");
    assert_eq!(shape("not a && b"), "[&& [not a] b]");
    assert_eq!(shape("a || b && c"), "[|| a [&& b c]]");
    assert_eq!(shape("a < b == c"), "[== [< a b] c]");
    assert_eq!(shape("a + b <= c * d"), "[<= [+ a b] [* c d]]");
    assert_eq!(shape("a * not b"), "[* a [not b]]");
    assert_eq!(shape("f x y + g z"), "[+ ((f x) y) (g z)]");
    assert_eq!(shape("f -1"), "(f -1)");
    assert_eq!(shape("(1, 2 + 3, ())"), "<1, [+ 2 3], ()>");
    assert_eq!(shape("(a + b) * c"), "[* [+ a b] c]");
    assert_eq!(shape("Cons (x, xs)"), "(Cons <x, xs>)");
}

#[test]
fn printing_an_arithmetic_term_and_parsing_it_again_gives_the_term() {
    for src in [
        "1 + 2 * 3",
        "(1 + 2) * 3",
        "1 - (2 - 3)",
        "1 - 2 - 3",
        "- (a * b)",
        "- a * b",
        "not (a && b)",
        "(not a) && b",
        "a * (not b)",
        "(a == b) == c",
        "a == (b == c)",
        "a || b && c",
        "(a || b) && c",
        "f (x + 1) (- y)",
        "(f x) + 1",
        "a / (b / c)",
    ] {
        let text = term_text(src);
        assert_eq!(shape(&text), shape(src), "{} printed as {}", src, text);
    }
    assert_eq!(term_text("(1 + 2) * 3"), "(1 + 2) * 3");
    assert_eq!(term_text("1 + (2 * 3)"), "1 + 2 * 3");
    assert_eq!(term_text("1 - (2 - 3)"), "1 - (2 - 3)");
    assert_eq!(term_text("(1 - 2) - 3"), "1 - 2 - 3");
    assert_eq!(term_text("f (g x) (1, 2)"), "f (g x) (1, 2)");
}

#[test]
fn compound_terms() {
    assert_eq!(term_text("if a then b else c"), "if a then b else c");
    assert_eq!(term_text("fun x y z -> x"), "fun x y z -> x");
    assert_eq!(term_text("let x = 1 in x + 1"), "let x = 1 in x + 1");
    assert_eq!(term_text("let rec f a b = a in f"), "let rec f a b = a in f");
    assert_eq!(term_text("f (fun x -> x)"), "f (fun x -> x)");
    assert_eq!(
        term_text("match x with | A -> 1 | B y -> y"),
        "match x with\n| A -> 1\n| B y -> y"
    );
    assert_eq!(
        term_text("match x with A -> (match y with B -> 1) | C -> 2"),
        "match x with\n| A ->\n  (match y with\n  | B -> 1)\n| C -> 2"
    );
    assert_eq!(
        term_text("let f = function | (a, b) -> a | _ -> 0 in f"),
        "let f = function\n| (a, b) -> a\n| _ -> 0\nin f"
    );
}

#[test]
fn types() {
    assert_eq!(type_text("int -> bool -> unit"), "int -> bool -> unit");
    assert_eq!(type_text("(int -> bool) -> unit"), "(int -> bool) -> unit");
    assert_eq!(type_text("int * bool -> 'a"), "int * bool -> 'a");
    assert_eq!(type_text("int * (bool * unit)"), "int * (bool * unit)");
    assert_eq!(type_text("'a list"), "'a list");
    assert_eq!(type_text("('a, 'b) map"), "('a, 'b) map");
    assert_eq!(type_text("('a list) list"), "('a list) list");
    assert_eq!(type_text("(int * int) list"), "(int * int) list");
    assert_eq!(type_text("(int)"), "int");
    assert_eq!(type_text("tree"), "tree");

    let arrow = make_type_parser(&lexer("a -> b -> c").unwrap()).unwrap();
    match &arrow.content {
        Type::Arr(_, rest) => assert!(matches!(&rest.content, Type::Arr(_, _))),
        _ => panic!("not an arrow"),
    }
    assert_eq!(
        make_type_parser(&lexer("'a list list").unwrap()).unwrap_err(),
        ParseError { position: 2, expected: Expected::End }
    );
    assert_eq!(make_type_parser(&lexer("->").unwrap()).unwrap_err(), ParseError { position: 0, expected: Expected::Type });
    assert!(make_cons_parser(&lexer("int list").unwrap()).is_ok());
    assert_eq!(
        make_cons_parser(&lexer("int * int").unwrap()).unwrap_err(),
        ParseError { position: 1, expected: Expected::End }
    );
}

#[test]
fn patterns() {
    assert_eq!(pattern_text("_"), "_");
    assert_eq!(pattern_text("x"), "x");
    assert_eq!(pattern_text("(x)"), "x");
    assert_eq!(pattern_text("(x, _, (y, z))"), "(x, _, (y, z))");
    assert_eq!(pattern_text("Some x"), "Some x");
    assert_eq!(pattern_text("None"), "None");
    assert_eq!(pattern_text("Cons (x, xs) as l"), "Cons (x, xs) as l");
    assert_eq!(pattern_text("Box (Some x)"), "Box (Some x)");
    assert_eq!(pattern_text("Box ((a, b) as p)"), "Box ((a, b) as p)");
    assert_eq!(
        make_pattern_parser(&lexer("x y").unwrap()).unwrap_err(),
        ParseError { position: 1, expected: Expected::End }
    );
}

#[test]
fn bindings_and_cases() {
    let b = make_bind_parser(&lexer("rec f x y = x").unwrap()).unwrap();
    assert_eq!(b.content.name, "f");
    assert_eq!(b.content.params, vec!["x".to_string(), "y".to_string()]);
    assert!(b.content.is_rec);
    let cases = make_cases_parser(&lexer("| A -> 1 | B -> 2").unwrap()).unwrap();
    assert_eq!(cases.len(), 2);
    let cases = make_cases_parser(&lexer("A -> 1").unwrap()).unwrap();
    assert_eq!(cases.len(), 1);
    assert_eq!(make_cases_parser(&vec![]).unwrap().len(), 0);
    assert_eq!(
        make_cases_parser(&lexer("A -> 1 |").unwrap()).unwrap_err(),
        ParseError { position: 3, expected: Expected::End }
    );
    assert_eq!(
        make_bind_parser(&lexer("f = ").unwrap()).unwrap_err(),
        ParseError { position: 2, expected: Expected::Term }
    );
}

#[test]
fn commands_and_programs() {
    let command = make_command_parser(&lexer("type 'a 'b pair = 'a * 'b").unwrap()).unwrap();
    match &command.content {
        Command::TypeAlias { name, def } => {
            assert_eq!(name, "pair");
            assert_eq!(def.content.to_string(), "\u{2200} 'a 'b. 'a * 'b");
        }
        _ => panic!("not an alias"),
    }
    let command = make_command_parser(&lexer("type t = | A | B of int").unwrap()).unwrap();
    match &command.content {
        Command::TypeDef { name, cons_list, arity } => {
            assert_eq!(name, "t");
            assert_eq!(*arity, 0);
            assert_eq!(cons_list[0].0, "A");
            assert_eq!(cons_list[0].1.content.to_string(), "t");
            assert_eq!(cons_list[1].1.content.to_string(), "int -> t");
        }
        _ => panic!("not a type definition"),
    }
    let program =
        make_program_parser(&lexer("@main @Entry let x = 1 eval x val y : int").unwrap()).unwrap();
    assert_eq!(program.len(), 3);
    assert_eq!(program[0].decos, vec!["main".to_string(), "Entry".to_string()]);
    assert!(program[1].decos.is_empty());
    assert!(matches!(&program[2].command.content, Command::TypeDeclare { .. }));

    assert_eq!(
        make_program_parser(&lexer("let x = 1 let = 2").unwrap()).unwrap_err(),
        ParseError { position: 5, expected: Expected::Name }
    );
    assert_eq!(
        make_program_parser(&lexer("eval x @a").unwrap()).unwrap_err(),
        ParseError { position: 4, expected: Expected::Command }
    );
    assert_eq!(make_program_parser(&vec![]).unwrap().len(), 0);
}

#[test]
fn free_variables_are_quantified_in_order_of_first_appearance() {
    let ty = make_type_parser(&lexer("'b -> ('a, 'b) map -> 'c * 'a").unwrap()).unwrap();
    let quantified = construct_poly_for_free_vars(ty);
    match &quantified.content {
        Type::Poly { vars, .. } => {
            assert_eq!(vars, &vec!["'b".to_string(), "'a".to_string(), "'c".to_string()])
        }
        _ => panic!("not quantified"),
    }
    let ty = make_type_parser(&lexer("int -> int").unwrap()).unwrap();
    assert!(matches!(&construct_poly_for_free_vars(ty).content, Type::Arr(_, _)));
}

#[test]
fn token_kinds_are_told_apart() {
    let tokens = lexer("fun x -> x").unwrap();
    assert_eq!(tokens[0].0, Token::Fun);
    let term = make_term_parser(&tokens).unwrap();
    assert!(matches!(&term.content, Term::Func { .. }));
    assert_eq!(
        make_term_parser(&lexer("1 +").unwrap()).unwrap_err(),
        ParseError { position: 2, expected: Expected::Term }
    );
    assert_eq!(make_term_parser(&lexer("+ 1").unwrap()).unwrap_err(), ParseError { position: 0, expected: Expected::Term });
}

fn term_stops_at(src: &str) -> (usize, Expected) {
    let e = make_term_parser(&lexer(src).unwrap()).unwrap_err();
    (e.position, e.expected)
}

fn command_stops_at(src: &str) -> (usize, Expected) {
    let e = make_command_parser(&lexer(src).unwrap()).unwrap_err();
    (e.position, e.expected)
}

fn program_stops_at(src: &str) -> (usize, Expected) {
    let e = make_program_parser(&lexer(src).unwrap()).unwrap_err();
    (e.position, e.expected)
}

#[test]
fn a_term_stops_at_the_token_that_cannot_be_used() {
    assert_eq!(term_stops_at(""), (0, Expected::Term));
    assert_eq!(term_stops_at("- not"), (2, Expected::Term));
    assert_eq!(term_stops_at("- not then"), (2, Expected::Term));
    assert_eq!(term_stops_at("let x = 1 in"), (5, Expected::Term));
    assert_eq!(term_stops_at("let x = 1 then 2"), (4, Expected::In));
    assert_eq!(term_stops_at("let rec = 1 in 2"), (2, Expected::Name));
    assert_eq!(term_stops_at("let f x y 1"), (4, Expected::Equals));
    assert_eq!(term_stops_at("if a then b"), (4, Expected::Else));
    assert_eq!(term_stops_at("if a b"), (3, Expected::Then));
    assert_eq!(term_stops_at("if 1 + then"), (3, Expected::Term));
    assert_eq!(term_stops_at("1 + * 2"), (2, Expected::Term));
    assert_eq!(term_stops_at("a && not"), (3, Expected::Term));
    assert_eq!(term_stops_at("a b c ,"), (3, Expected::End));
    assert_eq!(term_stops_at("let x = 1 + in x"), (5, Expected::Term));
    assert_eq!(term_stops_at("match x * with"), (3, Expected::Term));
    assert_eq!(term_stops_at("if a then b else"), (5, Expected::Term));
    assert_eq!(term_stops_at("if then"), (1, Expected::Term));
    assert_eq!(term_stops_at("match x"), (2, Expected::With));
    assert_eq!(term_stops_at("match with"), (1, Expected::Term));
    assert_eq!(term_stops_at("fun x y"), (3, Expected::Arrow));
    assert_eq!(term_stops_at("fun x -> let y = in y"), (6, Expected::Term));
    assert_eq!(term_stops_at("f (1 +)"), (1, Expected::End));
    assert_eq!(term_stops_at("(1 +)"), (0, Expected::Term));
}

#[test]
fn a_command_stops_at_the_token_that_cannot_be_used() {
    assert_eq!(command_stops_at(""), (0, Expected::Command));
    assert_eq!(command_stops_at("x"), (0, Expected::Command));
    assert_eq!(command_stops_at("type 'a"), (2, Expected::Name));
    assert_eq!(command_stops_at("type t int"), (2, Expected::Equals));
    assert_eq!(command_stops_at("type t ="), (3, Expected::Type));
    assert_eq!(command_stops_at("type t = |"), (4, Expected::Constructor));
    assert_eq!(command_stops_at("type t = (int, int)"), (4, Expected::Name));
    assert_eq!(command_stops_at("val"), (1, Expected::Name));
    assert_eq!(command_stops_at("val x int"), (2, Expected::Colon));
    assert_eq!(command_stops_at("val x : ->"), (3, Expected::Type));
    assert_eq!(command_stops_at("let x ="), (3, Expected::Term));
    assert_eq!(command_stops_at("eval"), (1, Expected::Term));
    assert_eq!(command_stops_at("eval if x then"), (4, Expected::Term));
    assert_eq!(command_stops_at("eval x x val"), (3, Expected::End));
    assert_eq!(command_stops_at("eval x -"), (3, Expected::Term));
    assert_eq!(command_stops_at("let f = function A -> 1 /"), (8, Expected::Term));
    assert_eq!(command_stops_at("val x : int +"), (4, Expected::End));
}

#[test]
fn a_program_stops_in_the_first_command_that_does_not_parse() {
    assert_eq!(program_stops_at("let x ="), (3, Expected::Term));
    assert_eq!(program_stops_at("eval 1 let x = 2 let y"), (8, Expected::Equals));
    assert_eq!(program_stops_at("@ eval 1"), (1, Expected::Name));
    assert_eq!(program_stops_at("@a @"), (3, Expected::Name));
    assert_eq!(program_stops_at("@a 1"), (2, Expected::Command));
    assert_eq!(program_stops_at("eval 1 +"), (3, Expected::Term));
    assert_eq!(program_stops_at("eval 1 + val x : int"), (3, Expected::Term));
    assert_eq!(program_stops_at("val x : int + 1"), (4, Expected::Command));
    assert_eq!(program_stops_at("+ 1"), (0, Expected::Command));
    assert_eq!(program_stops_at("val f : (int, int)"), (4, Expected::Name));
}
