//! Single tokens: lexing the text of a token gives the token.

use vstd::prelude::*;
use crate::language::{Span, TokenModel, TokenSeq, token_text};
use crate::text::{
    white_space, ident_start, ident_continue, is_digit, digit_char, digits_value, nat_text,
    int_text, has_prefix_at, left, sig,
};
use crate::lexer::{
    LexError, Lexeme, ident_run, digit_run, word_token, mark_at, number_at, simple_token, span_of,
    lex_items, lex, lemma_digits_value_push,
};

verus! {

/// Whether the characters of a text from `p` on continue an identifier.
pub open spec fn continues_from(w: Seq<char>, p: nat) -> bool
    decreases left(w.len(), p),
{
    p >= w.len() || (ident_continue(w[p as int]) && continues_from(w, p + 1))
}

/// Whether a text has the shape of an identifier.
pub open spec fn is_word(w: Seq<char>) -> bool {
    w.len() > 0 && ident_start(w[0]) && continues_from(w, 1)
}

/// Whether a token is one that the lexer gives: an identifier or a
/// constructor name is a word that is no keyword and starts as its kind
/// asks, a type variable is a quote before a word, and an integer is not
/// the least one. A parenthesised group is shown as `(...)`, which is no
/// group of its tokens.
pub open spec fn lexable(t: TokenModel) -> bool {
    match t {
        TokenModel::Id(x) => is_word(x) && word_token(x) == t,
        TokenModel::Cons(x) => is_word(x) && word_token(x) == t,
        TokenModel::Var(x) => x.len() >= 2 && x[0] == '\'' && ident_start(x[1]) && continues_from(
            x,
            2,
        ),
        TokenModel::IntVal(i) => i != i32::MIN,
        TokenModel::Parens(_) => false,
        _ => true,
    }
}

/// Whether a token is a keyword.
pub open spec fn keyword_token(t: TokenModel) -> bool {
    match t {
        TokenModel::Let | TokenModel::Int | TokenModel::Bool | TokenModel::Unit | TokenModel::In | TokenModel::Fun | TokenModel::If | TokenModel::Eval | TokenModel::Then | TokenModel::Function | TokenModel::Else | TokenModel::As | TokenModel::Not | TokenModel::Match | TokenModel::With | TokenModel::Rec | TokenModel::Wildcard | TokenModel::Type | TokenModel::Of | TokenModel::Val | TokenModel::BoolVal(_) => true,
        _ => false,
    }
}

/// Whether a token is an operator or a punctuation mark.
pub open spec fn mark_token(t: TokenModel) -> bool {
    match t {
        TokenModel::Arrow | TokenModel::EqEq | TokenModel::Leq | TokenModel::Geq | TokenModel::And | TokenModel::Or | TokenModel::Deco | TokenModel::Vbar | TokenModel::Lq | TokenModel::Gq | TokenModel::Colon | TokenModel::Eq | TokenModel::Plus | TokenModel::Times | TokenModel::Dot | TokenModel::Comma | TokenModel::Slash | TokenModel::Dash => true,
        _ => false,
    }
}

/// The keywords have the shape of identifiers and differ from one another.
pub proof fn lemma_keywords()
    ensures
        sig("let"@) == (3nat, 'l', 'e', 't'),
        sig("int"@) == (3nat, 'i', 'n', 't'),
        sig("bool"@) == (4nat, 'b', 'o', 'l'),
        sig("unit"@) == (4nat, 'u', 'n', 't'),
        sig("in"@) == (2nat, 'i', 'n', 'n'),
        sig("fun"@) == (3nat, 'f', 'u', 'n'),
        sig("if"@) == (2nat, 'i', 'f', 'f'),
        sig("eval"@) == (4nat, 'e', 'v', 'l'),
        sig("then"@) == (4nat, 't', 'h', 'n'),
        sig("function"@) == (8nat, 'f', 'u', 'n'),
        sig("else"@) == (4nat, 'e', 'l', 'e'),
        sig("true"@) == (4nat, 't', 'r', 'e'),
        sig("false"@) == (5nat, 'f', 'a', 'e'),
        sig("as"@) == (2nat, 'a', 's', 's'),
        sig("not"@) == (3nat, 'n', 'o', 't'),
        sig("match"@) == (5nat, 'm', 'a', 'h'),
        sig("with"@) == (4nat, 'w', 'i', 'h'),
        sig("rec"@) == (3nat, 'r', 'e', 'c'),
        sig("_"@) == (1nat, '_', ' ', '_'),
        sig("type"@) == (4nat, 't', 'y', 'e'),
        sig("of"@) == (2nat, 'o', 'f', 'f'),
        sig("val"@) == (3nat, 'v', 'a', 'l'),
        is_word("let"@),
        is_word("int"@),
        is_word("bool"@),
        is_word("unit"@),
        is_word("in"@),
        is_word("fun"@),
        is_word("if"@),
        is_word("eval"@),
        is_word("then"@),
        is_word("function"@),
        is_word("else"@),
        is_word("true"@),
        is_word("false"@),
        is_word("as"@),
        is_word("not"@),
        is_word("match"@),
        is_word("with"@),
        is_word("rec"@),
        is_word("_"@),
        is_word("type"@),
        is_word("of"@),
        is_word("val"@),
{
    reveal_with_fuel(continues_from, 9);
    reveal_strlit("let");
    reveal_strlit("int");
    reveal_strlit("bool");
    reveal_strlit("unit");
    reveal_strlit("in");
    reveal_strlit("fun");
    reveal_strlit("if");
    reveal_strlit("eval");
    reveal_strlit("then");
    reveal_strlit("function");
    reveal_strlit("else");
    reveal_strlit("true");
    reveal_strlit("false");
    reveal_strlit("as");
    reveal_strlit("not");
    reveal_strlit("match");
    reveal_strlit("with");
    reveal_strlit("rec");
    reveal_strlit("_");
    reveal_strlit("type");
    reveal_strlit("of");
    reveal_strlit("val");
}

/// The marks differ from one another.
pub proof fn lemma_marks()
    ensures
        sig("->"@) == (2nat, '-', '>', '>'),
        sig("=="@) == (2nat, '=', '=', '='),
        sig("<="@) == (2nat, '<', '=', '='),
        sig(">="@) == (2nat, '>', '=', '='),
        sig("&&"@) == (2nat, '&', '&', '&'),
        sig("||"@) == (2nat, '|', '|', '|'),
        sig("@"@) == (1nat, '@', ' ', '@'),
        sig("|"@) == (1nat, '|', ' ', '|'),
        sig("<"@) == (1nat, '<', ' ', '<'),
        sig(">"@) == (1nat, '>', ' ', '>'),
        sig(":"@) == (1nat, ':', ' ', ':'),
        sig("="@) == (1nat, '=', ' ', '='),
        sig("+"@) == (1nat, '+', ' ', '+'),
        sig("*"@) == (1nat, '*', ' ', '*'),
        sig("."@) == (1nat, '.', ' ', '.'),
        sig(","@) == (1nat, ',', ' ', ','),
        sig("/"@) == (1nat, '/', ' ', '/'),
        sig("-"@) == (1nat, '-', ' ', '-'),
        sig("()"@) == (2nat, '(', ')', ')'),
{
    reveal_strlit("->");
    reveal_strlit("==");
    reveal_strlit("<=");
    reveal_strlit(">=");
    reveal_strlit("&&");
    reveal_strlit("||");
    reveal_strlit("@");
    reveal_strlit("|");
    reveal_strlit("<");
    reveal_strlit(">");
    reveal_strlit(":");
    reveal_strlit("=");
    reveal_strlit("+");
    reveal_strlit("*");
    reveal_strlit(".");
    reveal_strlit(",");
    reveal_strlit("/");
    reveal_strlit("-");
    reveal_strlit("()");
}

/// A run of identifier characters that reaches the end of the text.
pub proof fn lemma_ident_run_full(w: Seq<char>, p: nat)
    requires
        p <= w.len(),
        continues_from(w, p),
    ensures
        ident_run(w, p) == w.len() - p,
    decreases left(w.len(), p),
{
    if p < w.len() {
        lemma_ident_run_full(w, p + 1);
    }
}

/// A text that is one token and nothing else lexes to that token.
pub proof fn lemma_single(s: Seq<char>, t: TokenModel, more: nat)
    requires
        s.len() == 1 + more,
        s[0] != '(',
        s[0] != ')',
        !white_space(s[0]),
        simple_token(s, 0) == Lexeme::Token(t, more),
    ensures
        lex(s) == Ok::<TokenSeq, LexError>(seq![(t, span_of(0, s.len()))]),
{
    assert(lex_items(s, (1 + more) as nat, false) == Ok::<(TokenSeq, nat), LexError>(
        (Seq::empty(), 0),
    ));
    assert(seq![(t, span_of(0, s.len()))] + Seq::<(TokenModel, Span)>::empty() =~= seq![
        (t, span_of(0, s.len())),
    ]);
}

/// A word lexes to the token that it stands for.
pub proof fn lemma_word_lexes(w: Seq<char>)
    requires
        is_word(w),
        !white_space(w[0]),
    ensures
        lex(w) == Ok::<TokenSeq, LexError>(seq![(word_token(w), span_of(0, w.len()))]),
{
    reveal(simple_token);
    lemma_ident_run_full(w, 1);
    assert(w.subrange(0, w.len() as int) =~= w);
    lemma_single(w, word_token(w), (w.len() - 1) as nat);
}

/// The numeral of a natural number: digits, of which the first is not `0`
/// but for the number zero, which denote the number.
pub proof fn lemma_nat_text(n: nat)
    ensures
        nat_text(n).len() >= 1,
        forall|i: int| 0 <= i < nat_text(n).len() ==> is_digit(#[trigger] nat_text(n)[i]),
        digits_value(nat_text(n)) == n,
        n >= 1 ==> nat_text(n)[0] != '0',
        n == 0 ==> nat_text(n) == seq!['0'],
    decreases n,
{
    if n < 10 {
        assert(nat_text(n) == seq![digit_char(n)]);
        assert(seq![digit_char(n)].drop_last() =~= Seq::<char>::empty());
        assert(digits_value(Seq::<char>::empty()) == 0);
    } else {
        lemma_nat_text(n / 10);
        lemma_digits_value_push(nat_text(n / 10), digit_char(n % 10));
    }
}

/// A run of digits that reaches the end of the text.
pub proof fn lemma_digit_run_full(s: Seq<char>, p: nat)
    requires
        p <= s.len(),
        forall|i: int| p <= i < s.len() ==> is_digit(#[trigger] s[i]),
    ensures
        digit_run(s, p) == s.len() - p,
    decreases left(s.len(), p),
{
    if p < s.len() {
        lemma_digit_run_full(s, p + 1);
    }
}

/// The numeral of an integer other than the least lexes to the integer.
pub proof fn lemma_int_lexes(i: i32)
    requires
        i != i32::MIN,
        !white_space(int_text(i as int)[0]),
    ensures
        lex(int_text(i as int)) == Ok::<TokenSeq, LexError>(
            seq![(TokenModel::IntVal(i), span_of(0, int_text(i as int).len()))],
        ),
{
    reveal(simple_token);
    lemma_marks();
    let s = int_text(i as int);
    let n: nat = if i < 0 {
        (-i) as nat
    } else {
        i as nat
    };
    lemma_nat_text(n);
    let digits = nat_text(n);
    let d: nat = if i < 0 {
        1
    } else {
        0
    };
    assert(s.len() == d + digits.len());
    assert forall|k: int| d <= k < s.len() implies is_digit(#[trigger] s[k]) by {
        assert(s[k] == digits[k - d]);
    }
    assert(s[d as int] == digits[0]);
    if s[d as int] != '0' {
        lemma_digit_run_full(s, d + 1);
    } else {
        assert(n == 0);
    }
    assert(s.subrange(d as int, s.len() as int) =~= digits);
    if i < 0 {
        assert(s[0] == '-');
        assert(!has_prefix_at(s, 0, "->"@)) by {
            if has_prefix_at(s, 0, "->"@) {
                assert(s.subrange(0, 2)[1] == "->"@[1]);
            }
        }
    }
    assert(mark_at(s, 0) is None);
    assert(!ident_start(s[0]));
    assert(s[0] != '\'');
    let run: nat = if s[d as int] == '0' {
        0
    } else {
        digit_run(s, d + 1)
    };
    assert(d + 1 + run == s.len());
    assert(digits_value(s.subrange(d as int, (d + 1 + run) as int)) == n);
    assert((s[0] == '-') == (i < 0));
    assert(number_at(s, 0) == Lexeme::Token(TokenModel::IntVal(i), (s.len() - 1) as nat));
    lemma_single(s, TokenModel::IntVal(i), (s.len() - 1) as nat);
}

/// The text of a keyword lexes to the keyword.
#[verifier::rlimit(60)]
pub proof fn lemma_keyword_lexes(t: TokenModel)
    requires
        keyword_token(t),
        !white_space(token_text(t)[0]),
    ensures
        lex(token_text(t)) == Ok::<TokenSeq, LexError>(
            seq![(t, span_of(0, token_text(t).len()))],
        ),
{
    lemma_keywords();
    match t {
        TokenModel::Let => {
            lemma_word_lexes("let"@);
        },
        TokenModel::Int => {
            lemma_word_lexes("int"@);
        },
        TokenModel::Bool => {
            lemma_word_lexes("bool"@);
        },
        TokenModel::Unit => {
            lemma_word_lexes("unit"@);
        },
        TokenModel::In => {
            lemma_word_lexes("in"@);
        },
        TokenModel::Fun => {
            lemma_word_lexes("fun"@);
        },
        TokenModel::If => {
            lemma_word_lexes("if"@);
        },
        TokenModel::Eval => {
            lemma_word_lexes("eval"@);
        },
        TokenModel::Then => {
            lemma_word_lexes("then"@);
        },
        TokenModel::Function => {
            lemma_word_lexes("function"@);
        },
        TokenModel::Else => {
            lemma_word_lexes("else"@);
        },
        TokenModel::As => {
            lemma_word_lexes("as"@);
        },
        TokenModel::Not => {
            lemma_word_lexes("not"@);
        },
        TokenModel::Match => {
            lemma_word_lexes("match"@);
        },
        TokenModel::With => {
            lemma_word_lexes("with"@);
        },
        TokenModel::Rec => {
            lemma_word_lexes("rec"@);
        },
        TokenModel::Wildcard => {
            lemma_word_lexes("_"@);
        },
        TokenModel::Type => {
            lemma_word_lexes("type"@);
        },
        TokenModel::Of => {
            lemma_word_lexes("of"@);
        },
        TokenModel::Val => {
            lemma_word_lexes("val"@);
        },
        TokenModel::BoolVal(b) => {
            if b {
                lemma_word_lexes("true"@);
            } else {
                lemma_word_lexes("false"@);
            }
        },
        _ => {},
    }
}

/// The text of a mark lexes to the mark.
#[verifier::rlimit(60)]
pub proof fn lemma_mark_lexes(t: TokenModel)
    requires
        mark_token(t),
        !white_space(token_text(t)[0]),
    ensures
        lex(token_text(t)) == Ok::<TokenSeq, LexError>(
            seq![(t, span_of(0, token_text(t).len()))],
        ),
{
    reveal(simple_token);
    lemma_marks();
    match t {
        TokenModel::Arrow => {
            let s = "->"@;
            assert(s.subrange(0, 2) =~= s);
            lemma_single(s, t, 1);
        },
        TokenModel::EqEq => {
            let s = "=="@;
            assert(s.subrange(0, 2) =~= s);
            lemma_single(s, t, 1);
        },
        TokenModel::Leq => {
            let s = "<="@;
            assert(s.subrange(0, 2) =~= s);
            lemma_single(s, t, 1);
        },
        TokenModel::Geq => {
            let s = ">="@;
            assert(s.subrange(0, 2) =~= s);
            lemma_single(s, t, 1);
        },
        TokenModel::And => {
            let s = "&&"@;
            assert(s.subrange(0, 2) =~= s);
            lemma_single(s, t, 1);
        },
        TokenModel::Or => {
            let s = "||"@;
            assert(s.subrange(0, 2) =~= s);
            lemma_single(s, t, 1);
        },
        TokenModel::Deco => {
            lemma_single("@"@, t, 0);
        },
        TokenModel::Vbar => {
            lemma_single("|"@, t, 0);
        },
        TokenModel::Lq => {
            lemma_single("<"@, t, 0);
        },
        TokenModel::Gq => {
            lemma_single(">"@, t, 0);
        },
        TokenModel::Colon => {
            lemma_single(":"@, t, 0);
        },
        TokenModel::Eq => {
            lemma_single("="@, t, 0);
        },
        TokenModel::Plus => {
            lemma_single("+"@, t, 0);
        },
        TokenModel::Times => {
            lemma_single("*"@, t, 0);
        },
        TokenModel::Dot => {
            lemma_single("."@, t, 0);
        },
        TokenModel::Comma => {
            lemma_single(","@, t, 0);
        },
        TokenModel::Slash => {
            lemma_single("/"@, t, 0);
        },
        TokenModel::Dash => {
            lemma_single("-"@, t, 0);
        },
        _ => {},
    }
}

/// Lexing the text of a token gives exactly the token, from the start to
/// the end of the text, for every token that the lexer gives. Of a word
/// that starts beyond ASCII it is asked that its first character is no
/// whitespace; no other token can hold whitespace.
pub proof fn lemma_lex_round_trip(t: TokenModel)
    requires
        lexable(t),
        token_text(t).len() <= usize::MAX,
        token_text(t)[0] > '\x7f' ==> !white_space(token_text(t)[0]),
    ensures
        lex(token_text(t)) == Ok::<TokenSeq, LexError>(
            seq![(t, span_of(0, token_text(t).len()))],
        ),
{
    let s = token_text(t);
    match t {
        TokenModel::Id(x) => {
            lemma_word_lexes(x);
        },
        TokenModel::Cons(x) => {
            lemma_word_lexes(x);
        },
        TokenModel::Var(x) => {
            reveal(simple_token);
            lemma_ident_run_full(x, 2);
            assert(x.subrange(0, x.len() as int) =~= x);
            lemma_single(x, t, (x.len() - 1) as nat);
        },
        TokenModel::IntVal(i) => {
            lemma_nat_text(
                if i < 0 {
                    (-i) as nat
                } else {
                    i as nat
                },
            );
            assert(s[0] == '-' || is_digit(s[0]));
            lemma_int_lexes(i);
        },
        TokenModel::UnitVal => {
            lemma_marks();
            assert(lex_items(s, 2, false) == Ok::<(TokenSeq, nat), LexError>((Seq::empty(), 0)));
            assert(seq![(t, span_of(0, 2))] + Seq::<(TokenModel, Span)>::empty() =~= seq![
                (t, span_of(0, 2)),
            ]);
        },
        TokenModel::Let | TokenModel::Int | TokenModel::Bool | TokenModel::Unit | TokenModel::In | TokenModel::Fun | TokenModel::If | TokenModel::Eval | TokenModel::Then | TokenModel::Function | TokenModel::Else | TokenModel::As | TokenModel::Not | TokenModel::Match | TokenModel::With | TokenModel::Rec | TokenModel::Wildcard | TokenModel::Type | TokenModel::Of | TokenModel::Val | TokenModel::BoolVal(_) => {
            lemma_keywords();
            lemma_keyword_lexes(t);
        },
        TokenModel::Arrow | TokenModel::EqEq | TokenModel::Leq | TokenModel::Geq | TokenModel::And | TokenModel::Or | TokenModel::Deco | TokenModel::Vbar | TokenModel::Lq | TokenModel::Gq | TokenModel::Colon | TokenModel::Eq | TokenModel::Plus | TokenModel::Times | TokenModel::Dot | TokenModel::Comma | TokenModel::Slash | TokenModel::Dash => {
            lemma_marks();
            lemma_mark_lexes(t);
        },
        TokenModel::Parens(_) => {},
    }
}

} // verus!
