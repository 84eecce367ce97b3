use ml_interface::language::{
    Bind, BindTerm, Command, DecoratedCommand, Pattern, Span, SpanPattern, SpanTerm, SpanType,
    Term, Type, WithSpan,
};
use ml_interface::lexer::lexer;
use ml_interface::parser::pattern_parser::make_pattern_parser;
use ml_interface::parser::program_parser::make_program_parser;
use ml_interface::parser::term_parser::make_term_parser;
use ml_interface::printer::term_printer::ProgramPrinter;
use ml_interface::processor::{internal_to_surface, surface_to_internal};
use ml_interface::serializer::deserializer::deserialize_program;
use ml_interface::serializer::json::Json;
use ml_interface::serializer::serializer::serialize_program;
use std::rc::Rc;

fn to_value(j: &Json) -> serde_json::Value {
    match j {
        Json::Null => serde_json::Value::Null,
        Json::Bool(b) => serde_json::Value::Bool(*b),
        Json::Number(n) => {
            if *n < 0 {
                serde_json::Value::Number(serde_json::Number::from(*n as i64))
            } else {
                serde_json::Value::Number(serde_json::Number::from(*n as u64))
            }
        }
        Json::String(s) => serde_json::Value::String(s.clone()),
        Json::Array(items) => serde_json::Value::Array(items.iter().map(to_value).collect()),
        Json::Object(members) => {
            let mut map = serde_json::Map::new();
            for (k, v) in members {
                map.insert(k.clone(), to_value(v));
            }
            serde_json::Value::Object(map)
        }
    }
}

fn from_value(v: &serde_json::Value) -> Json {
    match v {
        serde_json::Value::Null => Json::Null,
        serde_json::Value::Bool(b) => Json::Bool(*b),
        serde_json::Value::Number(n) => {
            if let Some(i) = n.as_i64() {
                Json::Number(i as i128)
            } else {
                Json::Number(n.as_u64().unwrap() as i128)
            }
        }
        serde_json::Value::String(s) => Json::String(s.clone()),
        serde_json::Value::Array(items) => Json::Array(items.iter().map(from_value).collect()),
        serde_json::Value::Object(map) => {
            Json::Object(map.iter().map(|(k, v)| (k.clone(), from_value(v))).collect())
        }
    }
}

fn node<T>(content: T) -> Rc<WithSpan<T>> {
    Rc::new(WithSpan { span: Span { start: 0, end: 1 }, content })
}

fn var(name: &str) -> SpanTerm {
    node(Term::Var(name.to_string()))
}

fn num(i: i32) -> SpanTerm {
    node(Term::Int(i))
}

fn op(name: &str, params: Vec<SpanTerm>) -> SpanTerm {
    node(Term::PrimOp { op: name.to_string(), params })
}

fn func(param: &str, body: SpanTerm) -> SpanTerm {
    node(Term::Func { params: vec![param.to_string()], body })
}

fn app(f: SpanTerm, x: SpanTerm) -> SpanTerm {
    node(Term::App(f, x))
}

fn cons(name: &str, body: SpanTerm) -> SpanTerm {
    node(Term::Cons { cons: name.to_string(), body })
}

fn tvar(name: &str) -> SpanType {
    node(Type::Var(name.to_string()))
}

fn ind(name: &str, params: Vec<SpanType>) -> SpanType {
    node(Type::Ind { name: name.to_string(), params })
}

fn pcons(name: &str, inner: SpanPattern) -> SpanPattern {
    node(Pattern::Cons(name.to_string(), Some(inner)))
}

fn pvar(name: &str) -> SpanPattern {
    node(Pattern::Var(None, name.to_string()))
}

fn bind(name: &str, is_rec: bool, def: SpanTerm) -> Command {
    Command::TermDef(node(Bind {
        bind: BindTerm::NormalBind(def),
        name: name.to_string(),
        params: vec![],
        is_rec,
    }))
}

fn plain(command: Command) -> DecoratedCommand {
    DecoratedCommand { command: node(command), decos: vec![] }
}

fn parse(src: &str) -> Vec<DecoratedCommand> {
    let tokens = lexer(src).unwrap();
    make_program_parser(&tokens).unwrap()
}

/// The internal form of a source text, read back from its JSON, so that
/// every span is the sentinel.
fn internal(src: &str) -> Vec<DecoratedCommand> {
    let program = surface_to_internal(&parse(src)).unwrap();
    let json = serialize_program(&program).unwrap();
    let text = serde_json::to_string(&to_value(&json)).unwrap();
    let back: serde_json::Value = serde_json::from_str(&text).unwrap();
    deserialize_program(&from_value(&back)).unwrap()
}

fn surface_text(program: &Vec<DecoratedCommand>, width: usize) -> String {
    let surface = internal_to_surface(program).unwrap();
    assert!(ProgramPrinter::is_printable(&surface));
    ProgramPrinter::pretty_print(&surface, width)
}

#[test]
fn test_parse_serialize_deserialize() {
    let input_str = "Cons (_, (x, t) as xs)";

    let tokens = lexer(input_str).unwrap();
    let pattern = make_pattern_parser(&tokens).unwrap();

    let json = pattern.content.serialize().expect("Failed to serialize A to JSON");
    let json_str = serde_json::to_string(&to_value(&json)).expect("Failed to serialize A to JSON");

    let value: serde_json::Value =
        serde_json::from_str(&json_str).expect("Failed to deserialize back to A");
    let pattern = Pattern::deserialize(&from_value(&value)).expect("Failed to deserialize back to A");

    println!("{}", pattern.to_string());
    assert_eq!(pattern.to_string(), "Cons (_, (x, t) as xs)");
    assert_eq!(
        json_str,
        "{\"type\":\"cons\",\"name\":\"Cons\",\"content\":{\"type\":\"tuple\",\"fields\":[{\"type\":\"underscore\"},{\"type\":\"var\",\"name\":\"xs\",\"content\":{\"type\":\"tuple\",\"fields\":[{\"type\":\"var\",\"name\":\"x\"},{\"type\":\"var\",\"name\":\"t\"}]}}]}}"
    );
}

#[test]
fn arithmetic_binding_becomes_a_plain_binding() {
    let program = internal("let x = 1 + 2 * 3");
    let expected =
        vec![plain(bind("x", false, op("+", vec![num(1), op("*", vec![num(2), num(3)])])))];
    assert_eq!(program, expected);
}

#[test]
fn list_type_gets_unit_payload_for_nil() {
    let program = internal("type 'a list = Nil | Cons of 'a * 'a list");
    let list = || ind("list", vec![tvar("'a")]);
    let poly = |body: SpanType| node(Type::Poly { vars: vec!["'a".to_string()], body });
    let expected = vec![plain(Command::TypeDef {
        name: "list".to_string(),
        arity: 1,
        cons_list: vec![
            ("Nil".to_string(), poly(node(Type::Arr(node(Type::Unit), list())))),
            (
                "Cons".to_string(),
                poly(node(Type::Arr(node(Type::Tuple(vec![tvar("'a"), list()])), list()))),
            ),
        ],
    })];
    assert_eq!(program, expected);
}

#[test]
fn nil_scheme_is_written_with_indices() {
    let program = surface_to_internal(&parse("type 'a list = Nil | Cons of 'a * 'a list")).unwrap();
    let nil = match &program[0].command.content {
        Command::TypeDef { cons_list, .. } => cons_list[0].1.content.serialize().unwrap(),
        _ => panic!("not a type definition"),
    };
    assert_eq!(
        serde_json::to_string(&to_value(&nil)).unwrap(),
        "{\"type\":\"poly\",\"vars\":[\"'a\"],\"body\":{\"type\":\"arrow\",\"s\":{\"type\":\"unit\"},\"t\":{\"type\":\"cons\",\"name\":\"list\",\"params\":[{\"type\":\"var\",\"index\":0}]}}}"
    );
}

const LIST: &str = "type 'a list = Nil | Cons of 'a * 'a list\n";

#[test]
fn function_binding_becomes_a_match() {
    let src = format!(
        "{}let rec map f = function | Nil -> Nil | Cons(x, xs) -> Cons(f x, map f xs)",
        LIST
    );
    let program = internal(&src);
    let cases = vec![
        (pcons("Nil", node(Pattern::Wildcard)), cons("Nil", node(Term::Unit))),
        (
            pcons("Cons", node(Pattern::Tuple(vec![pvar("x"), pvar("xs")]))),
            cons(
                "Cons",
                node(Term::Tuple(vec![
                    app(var("f"), var("x")),
                    app(app(var("map"), var("f")), var("xs")),
                ])),
            ),
        ),
    ];
    let body = func("f", func("var0", node(Term::Match { def: var("var0"), cases })));
    assert_eq!(program[1], plain(bind("map", true, body)));

    let text = surface_text(&program, 50);
    let again = internal(&text);
    assert_eq!(again, program);
    assert!(text.contains("let rec map f = function"));
    assert!(text.contains("| Nil ->"));
}

#[test]
fn multi_parameter_function_is_curried_and_comes_back() {
    let program = internal("eval fun x y -> x + y");
    let expected = vec![plain(Command::TermEval(func(
        "x",
        func("y", op("+", vec![var("x"), var("y")])),
    )))];
    assert_eq!(program, expected);
    assert_eq!(surface_text(&program, 50), "fun x y -> x + y");
}

#[test]
fn declaration_is_quantified_over_its_variables() {
    let surface = parse("val id : 'a -> 'a");
    match &surface[0].command.content {
        Command::TypeDeclare { name, ty } => {
            assert_eq!(name, "id");
            match &ty.content {
                Type::Poly { vars, body } => {
                    assert_eq!(vars, &vec!["'a".to_string()]);
                    assert!(matches!(&body.content, Type::Arr(_, _)));
                }
                _ => panic!("not quantified"),
            }
        }
        _ => panic!("not a declaration"),
    }
    let json = serialize_program(&surface_to_internal(&surface).unwrap()).unwrap();
    assert_eq!(
        serde_json::to_string(&to_value(&json)).unwrap(),
        "[{\"type\":\"declare\",\"name\":\"id\",\"ty\":{\"type\":\"poly\",\"vars\":[\"'a\"],\"body\":{\"type\":\"arrow\",\"s\":{\"type\":\"var\",\"index\":0},\"t\":{\"type\":\"var\",\"index\":0}}}}]"
    );
}

#[test]
fn match_with_as_patterns_and_nil_round_trips() {
    let src = format!(
        "{}eval match xs with | Cons (_, (x, t) as xs) -> x | Nil -> 0",
        "type pairs = Nil | Cons of int * (int * int)\n"
    );
    let program = internal(&src);
    let cases = vec![
        (
            pcons(
                "Cons",
                node(Pattern::Tuple(vec![
                    node(Pattern::Wildcard),
                    node(Pattern::Var(
                        Some(node(Pattern::Tuple(vec![pvar("x"), pvar("t")]))),
                        "xs".to_string(),
                    )),
                ])),
            ),
            var("x"),
        ),
        (pcons("Nil", node(Pattern::Wildcard)), num(0)),
    ];
    assert_eq!(
        program[1],
        plain(Command::TermEval(node(Term::Match { def: var("xs"), cases })))
    );
    let text = surface_text(&program, 50);
    assert_eq!(
        text,
        "type pairs = Nil | Cons of int * (int * int)\nmatch xs with\n| Cons (_, (x, t) as xs) -> x\n| Nil -> 0"
    );
    let (definition, term) = text.split_once('\n').unwrap();
    assert_eq!(internal(&format!("{}\neval {}", definition, term)), program);
}

#[test]
fn internal_form_has_unary_functions_and_no_bare_constructors() {
    let src = format!("{}let f = Cons\nlet g a b c = Nil\neval fun -> 1", LIST);
    let program = internal(&src);
    assert_eq!(
        program[1],
        plain(bind("f", false, func("tmp", cons("Cons", var("tmp")))))
    );
    assert_eq!(
        program[2],
        plain(bind(
            "g",
            false,
            func("a", func("b", func("c", cons("Nil", node(Term::Unit)))))
        ))
    );
    assert_eq!(program[3], plain(Command::TermEval(num(1))));
}

#[test]
fn unknown_constructor_is_refused() {
    assert!(surface_to_internal(&parse("eval Leaf")).is_none());
    assert!(surface_to_internal(&parse("eval match x with | Leaf -> 1")).is_none());
}

#[test]
fn nullary_constructor_with_an_argument_in_a_pattern_is_refused() {
    let src = format!("{}eval match x with | Nil y -> 1", LIST);
    assert!(surface_to_internal(&parse(&src)).is_none());
    let src = format!("{}eval match x with | Cons -> 1", LIST);
    assert!(surface_to_internal(&parse(&src)).is_none());
}

#[test]
fn function_binding_is_refused_on_the_way_to_the_surface() {
    let surface = parse("let f = function | x -> x");
    assert!(internal_to_surface(&surface).is_none());
}

#[test]
fn fresh_name_avoids_free_variables_of_the_branches() {
    let program = internal("let f = function | x -> var0 + var1");
    let cases = vec![(pvar("x"), op("+", vec![var("var0"), var("var1")]))];
    assert_eq!(
        program[0],
        plain(bind("f", false, func("var2", node(Term::Match { def: var("var2"), cases }))))
    );
}

#[test]
fn alias_and_function_binding_have_no_encoding() {
    assert!(serialize_program(&parse("type t = int")).is_none());
    assert!(serialize_program(&parse("let f x = x")).is_none());
    assert!(serialize_program(&parse("eval fun x y -> x")).is_none());
    assert!(serialize_program(&parse("val f : int -> int")).is_some());
    let term = make_term_parser(&lexer("Nil").unwrap()).unwrap();
    assert!(term.content.serialize().is_none());
}
