use ml_interface::language::{DecoratedCommand, Term, Token};
use ml_interface::lexer::lexer;
use ml_interface::parser::program_parser::make_program_parser;
use ml_interface::parser::term_parser::make_term_parser;
use ml_interface::printer::term_printer::ProgramPrinter;
use ml_interface::processor::{internal_to_surface, surface_to_internal};
use ml_interface::serializer::deserializer::deserialize_program;
use ml_interface::serializer::serializer::serialize_program;

fn parse(src: &str) -> Vec<DecoratedCommand> {
    make_program_parser(&lexer(src).unwrap()).unwrap()
}

fn print(program: &Vec<DecoratedCommand>) -> String {
    assert!(ProgramPrinter::is_printable(program));
    ProgramPrinter::pretty_print(program, 50)
}

/// The internal form of a source text as it is read back from its encoding.
fn read_back(src: &str) -> Vec<DecoratedCommand> {
    let internal = surface_to_internal(&parse(src)).unwrap();
    deserialize_program(&serialize_program(&internal).unwrap()).unwrap()
}

fn kinds(src: &str) -> Vec<Token> {
    lexer(src).unwrap().into_iter().map(|(t, _)| t).collect()
}

const PROGRAM: &str = "type 'a list = Nil | Cons of 'a * 'a list
type shape = Dot | Box of int * int
val length : 'a list -> int
let rec length = function
| Nil -> 0
| Cons (x, xs) -> 1 + length xs

let area = function
| Dot -> 0
| Box (w, h) -> w * h

let twice f x = f (f x)

let one = Cons (1, Nil)

let pick = if true then fun a b -> a else fun a b -> b";

#[test]
fn reading_the_encoding_gives_the_program() {
    let program = read_back(PROGRAM);
    let again = deserialize_program(&serialize_program(&program).unwrap()).unwrap();
    assert_eq!(again, program);
    assert_eq!(program.len(), 8);
}

#[test]
fn to_the_surface_and_back_gives_the_program() {
    for src in [PROGRAM, "type box = Box of int\nlet wrap = Box\neval (fun tmp -> Box tmp) 1"] {
        let program = read_back(src);
        let surface = internal_to_surface(&program).unwrap();
        let back = surface_to_internal(&surface).unwrap();
        assert_eq!(back, program);
    }
}

#[test]
fn a_match_on_the_last_parameter_comes_back_as_a_function_binding() {
    let surface = parse("type shape = Dot | Box of int\nlet area s = match s with | Dot -> 0 | Box w -> w");
    let internal = surface_to_internal(&surface).unwrap();
    let back = internal_to_surface(&internal).unwrap();
    assert_eq!(
        print(&back),
        "type shape = Dot | Box of int\nlet area = function\n| Dot -> 0\n| Box w -> w"
    );
    let bare = parse("type box = Box of int\nlet wrap = Box");
    let back = internal_to_surface(&surface_to_internal(&bare).unwrap()).unwrap();
    assert_eq!(print(&back), "type box = Box of int\nlet wrap tmp = Box tmp");
}

#[test]
fn to_the_internal_form_and_back_prints_the_same_tokens() {
    let surface = parse(PROGRAM);
    let internal = surface_to_internal(&surface).unwrap();
    let back = internal_to_surface(&internal).unwrap();
    assert_eq!(kinds(&print(&back)), kinds(&print(&surface)));
    assert_eq!(print(&back), print(&surface));
    assert!(print(&back).starts_with("type 'a list = Nil | Cons of 'a * 'a list\ntype shape ="));
}

#[test]
fn a_parameter_applied_to_a_constructor_comes_back_as_tmp() {
    let program = read_back("type box = Box of int\neval fun x -> Box x");
    let surface = internal_to_surface(&program).unwrap();
    match &surface[1].command.content {
        ml_interface::language::Command::TermEval(t) => match &t.content {
            Term::Func { params, body } => {
                assert!(params.is_empty());
                assert!(matches!(&body.content, Term::NativeCons(_)));
            }
            _ => panic!("not a function"),
        },
        _ => panic!("not a term"),
    }
    let back = surface_to_internal(&surface).unwrap();
    assert_ne!(back, program);
    let named = read_back("type box = Box of int\neval fun tmp -> Box tmp");
    assert_eq!(back, named);
}

#[test]
fn narrow_pages_break_lines() {
    let term = make_term_parser(&lexer("let total = first + second in total * total").unwrap())
        .unwrap();
    assert!(term.content.is_printable());
    assert_eq!(term.content.to_pretty(80), "let total = first + second in total * total");
    let narrow = term.content.to_pretty(16);
    assert!(narrow.contains('\n'));
    assert_eq!(kinds(&narrow), kinds("let total = first + second in total * total"));
    let tuple = make_term_parser(&lexer("(alpha, beta, gamma)").unwrap()).unwrap();
    assert_eq!(tuple.content.to_pretty(8), "(alpha,\n beta,\n gamma)");
    let call = make_term_parser(&lexer("function_name argument").unwrap()).unwrap();
    assert_eq!(call.content.to_pretty(10), "function_name\n  argument");
}

#[test]
fn identifiers_beyond_ascii() {
    assert_eq!(kinds("\u{e9}t\u{e9} \u{c9}t\u{e9}"), vec![
        Token::Id("\u{e9}t\u{e9}".to_string()),
        Token::Cons("\u{c9}t\u{e9}".to_string())
    ]);
    assert_eq!(kinds("a\u{a0}b"), vec![Token::Id("a".to_string()), Token::Id("b".to_string())]);
    assert!(lexer("\u{2200}").is_err());
}

#[test]
fn every_white_space_character_separates_tokens() {
    let spaces = [
        '\u{9}', '\u{a}', '\u{b}', '\u{c}', '\u{d}', ' ', '\u{85}', '\u{a0}', '\u{1680}',
        '\u{2000}', '\u{2001}', '\u{2002}', '\u{2003}', '\u{2004}', '\u{2005}', '\u{2006}',
        '\u{2007}', '\u{2008}', '\u{2009}', '\u{200a}', '\u{2028}', '\u{2029}', '\u{202f}',
        '\u{205f}', '\u{3000}',
    ];
    for c in spaces {
        let src = format!("a{}b", c);
        assert_eq!(kinds(&src), vec![Token::Id("a".to_string()), Token::Id("b".to_string())]);
    }
    for c in ['\u{200b}', '\u{180e}', '\u{feff}', '\u{1c}', '\u{1f}'] {
        assert!(lexer(&format!("a{}b", c)).is_err());
    }
}

#[test]
fn upper_case_letters_start_constructor_names() {
    for c in ['A', 'M', 'Z', '\u{c9}', '\u{3a9}'] {
        let name = format!("{}x", c);
        assert_eq!(kinds(&name), vec![Token::Cons(name.clone())]);
    }
    for c in ['a', 'z', '_', '\u{e9}', '\u{3c9}'] {
        let name = format!("{}x", c);
        assert_eq!(kinds(&name), vec![Token::Id(name.clone())]);
    }
}

#[test]
fn names_beyond_ascii_are_printed_as_they_are() {
    let src = "let \u{e9}t\u{e9} = \u{3c9} + \u{3c9} in \u{e9}t\u{e9} * \u{e9}t\u{e9}";
    let term = make_term_parser(&lexer(src).unwrap()).unwrap();
    assert!(term.content.is_printable());
    assert_eq!(term.content.to_pretty(80), src);
    let narrow = term.content.to_pretty(8);
    assert!(narrow.contains('\n'));
    assert_eq!(kinds(&narrow), kinds(src));
}
