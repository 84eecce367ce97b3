use ml_interface::language::{Span, Token};
use ml_interface::lexer::{lexer, LexError, LexErrorKind};

fn kinds(src: &str) -> Vec<Token> {
    lexer(src).unwrap().into_iter().map(|(t, _)| t).collect()
}

#[test]
fn keywords_and_identifiers() {
    assert_eq!(
        kinds("let rec f x = if x then Nil else y_1"),
        vec![
            Token::Let,
            Token::Rec,
            Token::Id("f".to_string()),
            Token::Id("x".to_string()),
            Token::Eq,
            Token::If,
            Token::Id("x".to_string()),
            Token::Then,
            Token::Cons("Nil".to_string()),
            Token::Else,
            Token::Id("y_1".to_string()),
        ]
    );
    assert_eq!(kinds("_"), vec![Token::Wildcard]);
    assert_eq!(kinds("_x"), vec![Token::Id("_x".to_string())]);
    assert_eq!(kinds("true false"), vec![Token::BoolVal(true), Token::BoolVal(false)]);
    assert_eq!(kinds("int bool unit"), vec![Token::Int, Token::Bool, Token::Unit]);
    assert_eq!(kinds("'a"), vec![Token::Var("'a".to_string())]);
}

#[test]
fn two_character_marks_win() {
    assert_eq!(
        kinds("-> == <= >= && || ()"),
        vec![
            Token::Arrow,
            Token::EqEq,
            Token::Leq,
            Token::Geq,
            Token::And,
            Token::Or,
            Token::UnitVal
        ]
    );
    assert_eq!(kinds("= < > | - + * / . , : @"), vec![
        Token::Eq,
        Token::Lq,
        Token::Gq,
        Token::Vbar,
        Token::Dash,
        Token::Plus,
        Token::Times,
        Token::Slash,
        Token::Dot,
        Token::Comma,
        Token::Colon,
        Token::Deco
    ]);
}

#[test]
fn minus_before_digits_is_one_token() {
    assert_eq!(kinds("-12"), vec![Token::IntVal(-12)]);
    assert_eq!(kinds("- 12"), vec![Token::Dash, Token::IntVal(12)]);
    assert_eq!(kinds("a-1"), vec![Token::Id("a".to_string()), Token::IntVal(-1)]);
    assert_eq!(kinds("-x"), vec![Token::Dash, Token::Id("x".to_string())]);
    assert_eq!(kinds("007"), vec![Token::IntVal(0), Token::IntVal(0), Token::IntVal(7)]);
    assert_eq!(kinds("2147483647"), vec![Token::IntVal(2147483647)]);
}

#[test]
fn spans_are_character_offsets() {
    assert_eq!(
        lexer("ab  (c d)").unwrap(),
        vec![
            (Token::Id("ab".to_string()), Span { start: 0, end: 2 }),
            (
                Token::Parens(vec![
                    (Token::Id("c".to_string()), Span { start: 5, end: 6 }),
                    (Token::Id("d".to_string()), Span { start: 7, end: 8 }),
                ]),
                Span { start: 4, end: 9 }
            ),
        ]
    );
}

#[test]
fn parentheses_hold_the_tokens_of_their_interior() {
    let inner = "f (x, y) 1";
    let whole = format!("({})", inner);
    let tokens = lexer(&whole).unwrap();
    assert_eq!(tokens.len(), 1);
    match &tokens[0].0 {
        Token::Parens(ts) => {
            let expected = lexer(inner).unwrap();
            assert_eq!(ts.len(), expected.len());
            for (a, b) in ts.iter().zip(expected.iter()) {
                assert_eq!(a.1, Span { start: b.1.start + 1, end: b.1.end + 1 });
            }
            assert_eq!(ts[0].0, Token::Id("f".to_string()));
        }
        _ => panic!("not a group"),
    }
    assert_eq!(kinds("( )"), vec![Token::Parens(vec![])]);
    assert_eq!(kinds("   "), vec![]);
    assert_eq!(kinds(""), vec![]);
}

#[test]
fn lexing_the_text_of_a_token_gives_the_token() {
    let tokens = vec![
        Token::Id("map".to_string()),
        Token::Cons("Cons".to_string()),
        Token::Var("'a".to_string()),
        Token::IntVal(42),
        Token::IntVal(-7),
        Token::BoolVal(true),
        Token::UnitVal,
        Token::Let,
        Token::Function,
        Token::Arrow,
        Token::Or,
        Token::Vbar,
        Token::Wildcard,
        Token::Deco,
        Token::Dash,
    ];
    for t in tokens {
        let text = t.to_string();
        let again = lexer(&text).unwrap();
        assert_eq!(again.len(), 1);
        assert_eq!(again[0].0, t);
        assert_eq!(again[0].1, Span { start: 0, end: text.chars().count() });
    }
}

#[test]
fn lexing_errors() {
    assert_eq!(
        lexer("a # b"),
        Err(LexError { kind: LexErrorKind::UnexpectedChar, position: 2 })
    );
    assert_eq!(
        lexer("(a (b)"),
        Err(LexError { kind: LexErrorKind::UnclosedParen, position: 6 })
    );
    assert_eq!(
        lexer("a) b"),
        Err(LexError { kind: LexErrorKind::UnexpectedChar, position: 1 })
    );
    assert_eq!(
        lexer("x 2147483648"),
        Err(LexError { kind: LexErrorKind::IntOutOfRange, position: 2 })
    );
    assert_eq!(
        lexer("(a $)"),
        Err(LexError { kind: LexErrorKind::UnexpectedChar, position: 3 })
    );
    assert_eq!(lexer("'"), Err(LexError { kind: LexErrorKind::UnexpectedChar, position: 0 }));
}

#[test]
fn token_texts() {
    assert_eq!(Token::Parens(vec![]).to_string(), "(...)");
    assert_eq!(Token::IntVal(-2147483648).to_string(), "-2147483648");
    assert_eq!(Token::IntVal(0).to_string(), "0");
    assert_eq!(Token::Geq.to_string(), ">=");
}
