use ml_interface::language::{
    bind_into, empty_context, look_up, Command, ConfigVal, Pattern, Term, Type,
};
use ml_interface::lexer::lexer;
use ml_interface::parser::term_parser::make_term_parser;
use ml_interface::printer::term_printer::op_priority;
use ml_interface::processor::arity_processor::{AddZeroArity, RemoverZeroArity};
use ml_interface::processor::native_processor::{AddNative, RemoveNative};
use ml_interface::processor::processor::{build_cons_type, unfold_cons_type};
use ml_interface::serializer::deserializer::{deserialize_program, DeserializeError};
use ml_interface::serializer::json::Json;
use ml_interface::serializer::serializer::{ConsInfo, MatchCase};
use ml_interface::text::{i32_to_string, usize_to_string};
use ml_interface::util::{collect_free_vars, collect_pattern_vars, get_free_name};

fn s(text: &str) -> Json {
    Json::String(text.to_string())
}

fn obj(members: Vec<(&str, Json)>) -> Json {
    Json::Object(members.into_iter().map(|(k, v)| (k.to_string(), v)).collect())
}

fn tagged(tag: &str, mut rest: Vec<(&'static str, Json)>) -> Json {
    let mut members = vec![("type", s(tag))];
    members.append(&mut rest);
    obj(members)
}

#[test]
fn decoding_a_type_resolves_indices() {
    let json = tagged(
        "poly",
        vec![
            ("vars", Json::Array(vec![s("'a"), s("'b")])),
            (
                "body",
                tagged(
                    "arrow",
                    vec![
                        ("s", tagged("var", vec![("index", Json::Number(1))])),
                        ("t", tagged("var", vec![("index", Json::Number(0))])),
                    ],
                ),
            ),
        ],
    );
    let ty = Type::deserialize(&json).unwrap();
    assert_eq!(ty.to_string(), "\u{2200} 'a 'b. 'b -> 'a");
    assert_eq!(ty.serialize().unwrap(), json);
}

#[test]
fn decoding_errors() {
    let out_of_range = tagged(
        "poly",
        vec![
            ("vars", Json::Array(vec![s("'a")])),
            ("body", tagged("var", vec![("index", Json::Number(1))])),
        ],
    );
    assert_eq!(Type::deserialize(&out_of_range), Err(DeserializeError::IndexOutOfRange));
    let free = tagged("var", vec![("index", Json::Number(0))]);
    assert_eq!(Type::deserialize(&free), Err(DeserializeError::IndexOutOfRange));
    assert_eq!(Type::deserialize(&tagged("float", vec![])), Err(DeserializeError::UnknownTag));
    assert_eq!(Type::deserialize(&Json::Null), Err(DeserializeError::ShapeMismatch));
    assert_eq!(
        Term::deserialize(&tagged("int", vec![("value", s("1"))])),
        Err(DeserializeError::ShapeMismatch)
    );
    assert_eq!(
        Term::deserialize(&tagged("int", vec![("value", Json::Number(2147483648))])),
        Err(DeserializeError::ShapeMismatch)
    );
    assert_eq!(
        Term::deserialize(&tagged("if", vec![("condition", tagged("unit", vec![]))])),
        Err(DeserializeError::ShapeMismatch)
    );
    assert_eq!(
        Term::deserialize(&tagged(
            "app",
            vec![("func", tagged("nope", vec![])), ("param", Json::Null)]
        )),
        Err(DeserializeError::UnknownTag)
    );
    assert_eq!(
        Pattern::deserialize(&tagged("tuple", vec![("fields", Json::Bool(true))])),
        Err(DeserializeError::ShapeMismatch)
    );
    assert_eq!(
        Command::deserialize(&tagged("config", vec![])),
        Err(DeserializeError::UnknownTag)
    );
    assert_eq!(deserialize_program(&obj(vec![])), Err(DeserializeError::ShapeMismatch));
    assert_eq!(Term::deserialize(&obj(vec![("name", s("x"))])), Err(DeserializeError::ShapeMismatch));
}

#[test]
fn decoding_commands() {
    let json = Json::Array(vec![
        tagged(
            "func",
            vec![
                ("name", s("f")),
                (
                    "def",
                    tagged(
                        "func",
                        vec![("name", s("x")), ("content", tagged("var", vec![("name", s("x"))]))],
                    ),
                ),
            ],
        ),
        tagged("eval", vec![("term", tagged("true", vec![])), ("extra", Json::Null)]),
        tagged(
            "type",
            vec![
                ("name", s("t")),
                ("arity", Json::Number(0)),
                (
                    "cons",
                    Json::Array(vec![obj(vec![
                        ("name", s("A")),
                        (
                            "type",
                            tagged(
                                "arrow",
                                vec![
                                    ("s", tagged("unit", vec![])),
                                    (
                                        "t",
                                        tagged(
                                            "cons",
                                            vec![("name", s("t")), ("params", Json::Array(vec![]))],
                                        ),
                                    ),
                                ],
                            ),
                        ),
                    ])]),
                ),
            ],
        ),
    ]);
    let program = deserialize_program(&json).unwrap();
    assert_eq!(program.len(), 3);
    match &program[0].command.content {
        Command::TermDef(b) => {
            assert!(b.content.is_rec);
            assert!(b.content.params.is_empty());
            assert_eq!(b.content.name, "f");
        }
        _ => panic!("not a binding"),
    }
    assert!(matches!(&program[1].command.content, Command::TermEval(_)));
    assert!(program.iter().all(|c| c.decos.is_empty()));
}

#[test]
fn cases_and_constructors_are_written_as_objects() {
    let term = make_term_parser(&lexer("match x with | y -> 1").unwrap()).unwrap();
    let cases = match &term.content {
        Term::Match { cases, .. } => cases,
        _ => panic!("not a match"),
    };
    assert_eq!(
        MatchCase::from_case(&cases[0]).serialize().unwrap(),
        obj(vec![
            ("pattern", tagged("var", vec![("name", s("y"))])),
            ("branch", tagged("int", vec![("value", Json::Number(1))])),
        ])
    );
    let info = ("A".to_string(), std::rc::Rc::new(ml_interface::language::WithSpan {
        span: ml_interface::language::Span { start: 0, end: 1 },
        content: Type::Int,
    }));
    assert_eq!(
        ConsInfo::from_info(&info).serialize().unwrap(),
        obj(vec![("name", s("A")), ("type", tagged("int", vec![]))])
    );
}

#[test]
fn variables_of_patterns_and_terms() {
    let pattern = ml_interface::parser::pattern_parser::make_pattern_parser(
        &lexer("Cons ((a, _) as p, (b, a))").unwrap(),
    )
    .unwrap();
    assert_eq!(
        collect_pattern_vars(&pattern.content),
        vec!["a".to_string(), "p".to_string(), "b".to_string(), "a".to_string()]
    );
    let free = |src: &str| {
        let term = make_term_parser(&lexer(src).unwrap()).unwrap();
        let mut vars = collect_free_vars(&term.content);
        vars.sort();
        vars
    };
    assert_eq!(free("fun x -> x + y + y"), vec!["y".to_string()]);
    assert_eq!(free("let x = x in x + z"), vec!["x".to_string(), "z".to_string()]);
    assert_eq!(free("let rec f a = f a in f"), vec!["a".to_string(), "f".to_string()]);
    assert_eq!(free("match v with | (a, b) -> a + c | d -> b"), vec![
        "b".to_string(),
        "c".to_string(),
        "v".to_string()
    ]);
    assert_eq!(free("Cons (1, ())"), Vec::<String>::new());

    let terms = vec![
        make_term_parser(&lexer("var0 + x").unwrap()).unwrap(),
        make_term_parser(&lexer("fun var1 -> var1 var2").unwrap()).unwrap(),
    ];
    assert_eq!(get_free_name(&terms), "var1");
    assert_eq!(get_free_name(&vec![]), "var0");
}

#[test]
fn contexts_find_the_most_recent_entry() {
    let c = empty_context();
    assert_eq!(look_up("a", &c), None::<bool>);
    let c = bind_into("a".to_string(), true, c);
    let c = bind_into("b".to_string(), false, c);
    let c = bind_into("a".to_string(), false, c);
    assert_eq!(look_up("a", &c), Some(false));
    assert_eq!(look_up("b", &c), Some(false));
    assert_eq!(look_up("c", &c), None);
}

#[test]
fn numerals_and_priorities() {
    assert_eq!(i32_to_string(0), "0");
    assert_eq!(i32_to_string(-2147483648), "-2147483648");
    assert_eq!(i32_to_string(1090), "1090");
    assert_eq!(usize_to_string(18446744073709551615), "18446744073709551615");
    assert_eq!(op_priority(&"-".to_string(), 1), Some(20));
    assert_eq!(op_priority(&"-".to_string(), 2), Some(5));
    assert_eq!(op_priority(&"*".to_string(), 2), Some(10));
    assert_eq!(op_priority(&"<=".to_string(), 2), Some(4));
    assert_eq!(op_priority(&"not".to_string(), 1), Some(3));
    assert_eq!(op_priority(&"&&".to_string(), 2), Some(2));
    assert_eq!(op_priority(&"||".to_string(), 2), Some(1));
    assert_eq!(op_priority(&"mod".to_string(), 2), None);
    assert_eq!(ConfigVal::String("a".to_string()).to_string(), "\"a\"");
    assert_eq!(ConfigVal::Int(-3).to_string(), "-3");
}

#[test]
fn passes_one_by_one() {
    let tokens = lexer("type t = A | B of int\nlet f = function | A -> B 1 | B n -> A").unwrap();
    let surface = ml_interface::parser::program_parser::make_program_parser(&tokens).unwrap();
    let mut first = RemoverZeroArity::default();
    let step1 = first.process_program(&surface).unwrap();
    assert_eq!(look_up("A", &first.context), Some(true));
    assert_eq!(look_up("B", &first.context), Some(false));
    let mut second = RemoveNative::default();
    let internal = second.process_program(&step1);
    let mut third = AddNative::default();
    let step3 = third.process_program(&internal).unwrap();
    let mut fourth = AddZeroArity::default();
    let back = fourth.process_program(&step3).unwrap();
    assert_eq!(look_up("A", &fourth.context), Some(true));
    assert!(ml_interface::printer::term_printer::ProgramPrinter::is_printable(&back));
    assert_eq!(
        ml_interface::printer::term_printer::ProgramPrinter::pretty_print(&back, 60),
        "type t = A | B of int\nlet f = function\n| A -> B 1\n| B n -> A"
    );

    let scheme = match &step1[0].command.content {
        Command::TypeDef { cons_list, .. } => cons_list[0].1.clone(),
        _ => panic!("not a type definition"),
    };
    assert_eq!(scheme.content.to_string(), "unit -> t");
    let (vars, body) = unfold_cons_type(&scheme);
    assert!(vars.is_empty());
    assert_eq!(build_cons_type(vec!["'a".to_string()], body).content.to_string(), "\u{2200} 'a. unit -> t");
}
