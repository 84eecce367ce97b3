//! What the parsers share: token tests, spans of token ranges, and the
//! error that reports where parsing stopped.

use vstd::prelude::*;
use crate::language::{
    Span, Token, TokenModel, TokenSeq, tokens_view, Type, TypeModel, SpanType, SType, WithSpan,
    spanned, share, lemma_type_view, nodes_view,
};
use crate::text::{names_view, left};

verus! {

/// What the parser looked for at the token at which it stopped.
#[derive(Clone, Copy, Debug, PartialEq, Eq, Structural)]
pub enum Expected {
    /// A term.
    Term,
    /// A type.
    Type,
    /// A pattern.
    Pattern,
    /// The name of what is bound, defined, declared or applied.
    Name,
    /// A constructor declaration.
    Constructor,
    /// A command.
    Command,
    /// The mark `=`.
    Equals,
    /// The mark `:`.
    Colon,
    /// The mark `->`.
    Arrow,
    /// The keyword `in`.
    In,
    /// The keyword `then`.
    Then,
    /// The keyword `else`.
    Else,
    /// The keyword `with`.
    With,
    /// The end of the tokens: what stands in front of the token is complete.
    End,
}

/// Why parsing stopped: the index of the first token that could not be used
/// where it stands, which is the number of tokens where the input ends too
/// early, and what the parser looked for there. A token inside a
/// parenthesised group counts as the group.
#[derive(Clone, Copy, Debug, PartialEq, Eq, Structural)]
pub struct ParseError {
    pub position: usize,
    pub expected: Expected,
}

/// A number for the kind of a token; zero for the kinds that carry a value.
pub open spec fn kind_of(t: TokenModel) -> u8 {
    match t {
        TokenModel::Let => 1,
        TokenModel::In => 2,
        TokenModel::Fun => 3,
        TokenModel::If => 4,
        TokenModel::Then => 5,
        TokenModel::Else => 6,
        TokenModel::Of => 7,
        TokenModel::Eval => 8,
        TokenModel::Eq => 9,
        TokenModel::Plus => 10,
        TokenModel::Times => 11,
        TokenModel::Dot => 12,
        TokenModel::Int => 13,
        TokenModel::Bool => 14,
        TokenModel::Unit => 15,
        TokenModel::Dash => 16,
        TokenModel::Slash => 17,
        TokenModel::EqEq => 18,
        TokenModel::Lq => 19,
        TokenModel::Leq => 20,
        TokenModel::Gq => 21,
        TokenModel::Geq => 22,
        TokenModel::And => 23,
        TokenModel::Or => 24,
        TokenModel::Not => 25,
        TokenModel::Arrow => 26,
        TokenModel::Comma => 27,
        TokenModel::Wildcard => 28,
        TokenModel::As => 29,
        TokenModel::Rec => 30,
        TokenModel::Vbar => 31,
        TokenModel::Match => 32,
        TokenModel::With => 33,
        TokenModel::Function => 34,
        TokenModel::Type => 35,
        TokenModel::Val => 36,
        TokenModel::Colon => 37,
        TokenModel::Deco => 38,
        TokenModel::UnitVal => 39,
        _ => 0,
    }
}

/// Whether the token at `pos` is of the kind `mark`.
pub open spec fn is_mark(ts: TokenSeq, pos: nat, mark: TokenModel) -> bool {
    pos < ts.len() && kind_of(ts[pos as int].0) == kind_of(mark)
}

/// The name of the identifier token at `pos`.
pub open spec fn id_at(ts: TokenSeq, pos: nat) -> Option<Seq<char>> {
    if pos < ts.len() {
        match ts[pos as int].0 {
            TokenModel::Id(name) => Some(name),
            _ => None,
        }
    } else {
        None
    }
}

/// The name of the constructor token at `pos`.
pub open spec fn cons_at(ts: TokenSeq, pos: nat) -> Option<Seq<char>> {
    if pos < ts.len() {
        match ts[pos as int].0 {
            TokenModel::Cons(name) => Some(name),
            _ => None,
        }
    } else {
        None
    }
}

/// The name of the type-variable token at `pos`.
pub open spec fn var_at(ts: TokenSeq, pos: nat) -> Option<Seq<char>> {
    if pos < ts.len() {
        match ts[pos as int].0 {
            TokenModel::Var(name) => Some(name),
            _ => None,
        }
    } else {
        None
    }
}

/// The tokens inside the parenthesised group at `pos`.
pub open spec fn group_at(ts: TokenSeq, pos: nat) -> Option<TokenSeq> {
    if pos < ts.len() {
        match ts[pos as int].0 {
            TokenModel::Parens(inner) => Some(inner),
            _ => None,
        }
    } else {
        None
    }
}

/// The span of the `n` tokens from `pos` on: from the start of the first to
/// the end of the last.
pub open spec fn span_over(ts: TokenSeq, pos: nat, n: nat) -> Span
    recommends
        n >= 1,
        pos + n <= ts.len(),
{
    Span { start: ts[pos as int].1.start, end: ts[pos + n - 1].1.end }
}

/// How many identifier tokens stand in a row from `pos` on.
pub open spec fn id_run(ts: TokenSeq, pos: nat) -> nat
    decreases left(ts.len(), pos),
{
    if id_at(ts, pos) is Some {
        1 + id_run(ts, pos + 1)
    } else {
        0
    }
}

/// The names of the `n` identifier tokens from `pos` on.
pub open spec fn id_names(ts: TokenSeq, pos: nat, n: nat) -> Seq<Seq<char>> {
    Seq::new(n, |i: int| id_at(ts, (pos + i) as nat).unwrap())
}

/// How many type-variable tokens stand in a row from `pos` on.
pub open spec fn var_run(ts: TokenSeq, pos: nat) -> nat
    decreases left(ts.len(), pos),
{
    if var_at(ts, pos) is Some {
        1 + var_run(ts, pos + 1)
    } else {
        0
    }
}

/// The names of the `n` type-variable tokens from `pos` on.
pub open spec fn var_names(ts: TokenSeq, pos: nat, n: nat) -> Seq<Seq<char>> {
    Seq::new(n, |i: int| var_at(ts, (pos + i) as nat).unwrap())
}

fn kind_code(t: &Token) -> (k: u8)
    ensures
        k == kind_of(t@),
{
    match t {
        Token::Let => 1,
        Token::In => 2,
        Token::Fun => 3,
        Token::If => 4,
        Token::Then => 5,
        Token::Else => 6,
        Token::Of => 7,
        Token::Eval => 8,
        Token::Eq => 9,
        Token::Plus => 10,
        Token::Times => 11,
        Token::Dot => 12,
        Token::Int => 13,
        Token::Bool => 14,
        Token::Unit => 15,
        Token::Dash => 16,
        Token::Slash => 17,
        Token::EqEq => 18,
        Token::Lq => 19,
        Token::Leq => 20,
        Token::Gq => 21,
        Token::Geq => 22,
        Token::And => 23,
        Token::Or => 24,
        Token::Not => 25,
        Token::Arrow => 26,
        Token::Comma => 27,
        Token::Wildcard => 28,
        Token::As => 29,
        Token::Rec => 30,
        Token::Vbar => 31,
        Token::Match => 32,
        Token::With => 33,
        Token::Function => 34,
        Token::Type => 35,
        Token::Val => 36,
        Token::Colon => 37,
        Token::Deco => 38,
        Token::UnitVal => 39,
        _ => 0,
    }
}

/// Whether the token at `pos` is of the kind of `mark`.
pub fn at_mark(tokens: &Vec<(Token, Span)>, pos: usize, mark: &Token) -> (b: bool)
    ensures
        b == is_mark(tokens_view(tokens@), pos as nat, mark@),
{
    pos < tokens.len() && kind_code(&tokens[pos].0) == kind_code(mark)
}

/// The name of the identifier token at `pos`.
pub fn at_id(tokens: &Vec<(Token, Span)>, pos: usize) -> (r: Option<String>)
    ensures
        match r {
            Some(name) => id_at(tokens_view(tokens@), pos as nat) == Some(name@),
            None => id_at(tokens_view(tokens@), pos as nat) is None,
        },
{
    if pos < tokens.len() {
        match &tokens[pos].0 {
            Token::Id(name) => Some(name.clone()),
            _ => None,
        }
    } else {
        None
    }
}

/// The name of the constructor token at `pos`.
pub fn at_cons(tokens: &Vec<(Token, Span)>, pos: usize) -> (r: Option<String>)
    ensures
        match r {
            Some(name) => cons_at(tokens_view(tokens@), pos as nat) == Some(name@),
            None => cons_at(tokens_view(tokens@), pos as nat) is None,
        },
{
    if pos < tokens.len() {
        match &tokens[pos].0 {
            Token::Cons(name) => Some(name.clone()),
            _ => None,
        }
    } else {
        None
    }
}

/// The name of the type-variable token at `pos`.
pub fn at_var(tokens: &Vec<(Token, Span)>, pos: usize) -> (r: Option<String>)
    ensures
        match r {
            Some(name) => var_at(tokens_view(tokens@), pos as nat) == Some(name@),
            None => var_at(tokens_view(tokens@), pos as nat) is None,
        },
{
    if pos < tokens.len() {
        match &tokens[pos].0 {
            Token::Var(name) => Some(name.clone()),
            _ => None,
        }
    } else {
        None
    }
}

/// Whether a parser's result is what the model gives from `pos` on: the same
/// item and the same number of tokens taken, which is at least one.
pub open spec fn parsed<T: View>(
    r: Option<(crate::language::Spanned<T>, usize)>,
    m: Option<(WithSpan<T::V>, nat)>,
    pos: usize,
    len: nat,
) -> bool {
    match r {
        Some((t, end)) => m == Some((t@, (end - pos) as nat)) && pos < end <= len,
        None => m is None,
    }
}

/// The error of a parser that stopped at a token, looking for something.
pub open spec fn stopped_at(stop: (nat, Expected)) -> ParseError {
    ParseError { position: stop.0 as usize, expected: stop.1 }
}

/// What parsing a whole token sequence as one item gives: the item where it
/// takes up every token; else the first token left over behind the item,
/// where the end was looked for; or, where no item stands at the start, the
/// token `stop` at which the parser stopped with what it looked for there.
pub open spec fn whole<T>(m: Option<(T, nat)>, len: nat, stop: (nat, Expected)) -> Result<
    T,
    ParseError,
> {
    match m {
        Some((t, n)) => if n == len {
            Ok(t)
        } else {
            Err(ParseError { position: n as usize, expected: Expected::End })
        },
        None => Err(ParseError { position: stop.0 as usize, expected: stop.1 }),
    }
}

/// The span of the tokens from `pos` up to `end`.
pub fn span_between(tokens: &Vec<(Token, Span)>, pos: usize, end: usize) -> (s: Span)
    requires
        pos < end <= tokens@.len(),
    ensures
        s == span_over(tokens_view(tokens@), pos as nat, (end - pos) as nat),
{
    Span { start: tokens[pos].1.start, end: tokens[end - 1].1.end }
}

/// Appends to `out` the names of the identifier tokens that stand in a row
/// from `pos` on, and returns the position behind them.
pub fn take_ids(tokens: &Vec<(Token, Span)>, pos: usize, out: &mut Vec<String>) -> (end: usize)
    requires
        pos <= tokens@.len(),
    ensures
        end == pos + id_run(tokens_view(tokens@), pos as nat),
        end <= tokens@.len(),
        names_view(final(out)@) == names_view(old(out)@) + id_names(
            tokens_view(tokens@),
            pos as nat,
            (end - pos) as nat,
        ),
    decreases tokens@.len() - pos,
{
    let ghost ts = tokens_view(tokens@);
    let len = tokens.len();
    match at_id(tokens, pos) {
        Some(name) => {
            let ghost before = names_view(out@);
            out.push(name);
            let end = take_ids(tokens, pos + 1, out);
            proof {
                let n = (end - pos) as nat;
                assert(names_view(out@) =~= before + id_names(ts, pos as nat, n)) by {
                    assert(names_view(old(out)@.push(name)) =~= before.push(name@));
                    assert(id_names(ts, pos as nat, n) =~= seq![name@] + id_names(
                        ts,
                        (pos + 1) as nat,
                        (n - 1) as nat,
                    ));
                }
            }
            end
        },
        None => {
            assert(names_view(out@) =~= names_view(out@) + id_names(ts, pos as nat, 0));
            pos
        },
    }
}

/// Appends to `out` the names of the type-variable tokens that stand in a row
/// from `pos` on, and returns the position behind them.
pub fn take_vars(tokens: &Vec<(Token, Span)>, pos: usize, out: &mut Vec<String>) -> (end: usize)
    requires
        pos <= tokens@.len(),
    ensures
        end == pos + var_run(tokens_view(tokens@), pos as nat),
        end <= tokens@.len(),
        names_view(final(out)@) == names_view(old(out)@) + var_names(
            tokens_view(tokens@),
            pos as nat,
            (end - pos) as nat,
        ),
    decreases tokens@.len() - pos,
{
    let ghost ts = tokens_view(tokens@);
    let len = tokens.len();
    match at_var(tokens, pos) {
        Some(name) => {
            let ghost before = names_view(out@);
            out.push(name);
            let end = take_vars(tokens, pos + 1, out);
            proof {
                let n = (end - pos) as nat;
                assert(names_view(out@) =~= before + var_names(ts, pos as nat, n)) by {
                    assert(names_view(old(out)@.push(name)) =~= before.push(name@));
                    assert(var_names(ts, pos as nat, n) =~= seq![name@] + var_names(
                        ts,
                        (pos + 1) as nat,
                        (n - 1) as nat,
                    ));
                }
            }
            end
        },
        None => {
            assert(names_view(out@) =~= names_view(out@) + var_names(ts, pos as nat, 0));
            pos
        },
    }
}

/// Whether no quantifier occurs in a type.
pub open spec fn poly_free(t: TypeModel) -> bool
    decreases t,
{
    match t {
        TypeModel::Poly { .. } => false,
        TypeModel::Tuple(ts) => forall|i: int| 0 <= i < ts.len() ==> poly_free(#[trigger] ts[i].content),
        TypeModel::Arr(a, b) => poly_free(a.content) && poly_free(b.content),
        TypeModel::Ind { name, params } => forall|i: int|
            0 <= i < params.len() ==> poly_free(#[trigger] params[i].content),
        _ => true,
    }
}

/// `seen`, followed by the variables of `t` that are not in it, each once,
/// in the order of their first appearance.
pub open spec fn type_vars(t: TypeModel, seen: Seq<Seq<char>>) -> Seq<Seq<char>>
    decreases t, 0nat,
{
    match t {
        TypeModel::Var(name) => if seen.contains(name) {
            seen
        } else {
            seen.push(name)
        },
        TypeModel::Tuple(ts) => types_vars(ts, seen),
        TypeModel::Arr(a, b) => type_vars(b.content, type_vars(a.content, seen)),
        TypeModel::Ind { name, params } => types_vars(params, seen),
        _ => seen,
    }
}

/// `seen`, followed by the new variables of the types of `ts`, from left to
/// right.
pub open spec fn types_vars(ts: Seq<SType>, seen: Seq<Seq<char>>) -> Seq<Seq<char>>
    decreases ts, 1nat,
{
    if ts.len() == 0 {
        seen
    } else {
        type_vars(ts.last().content, types_vars(ts.drop_last(), seen))
    }
}

/// A type under the quantifier of its variables, where it has any; the
/// quantifier carries the span of the type.
pub open spec fn generalized(t: SType) -> SType {
    let vars = type_vars(t.content, Seq::empty());
    if vars.len() == 0 {
        t
    } else {
        WithSpan { span: t.span, content: TypeModel::Poly { vars, body: Box::new(t) } }
    }
}

fn has_name(names: &Vec<String>, name: &String) -> (b: bool)
    ensures
        b == names_view(names@).contains(name@),
{
    let mut i: usize = 0;
    while i < names.len()
        invariant
            i <= names@.len(),
            forall|j: int| 0 <= j < i ==> names_view(names@)[j] != name@,
        decreases names@.len() - i,
    {
        if names[i] == *name {
            assert(names_view(names@)[i as int] == name@);
            return true;
        }
        i = i + 1;
    }
    false
}

fn collect_type_vars(t: &Type, out: &mut Vec<String>)
    requires
        poly_free(t@),
    ensures
        names_view(final(out)@) == type_vars(t@, names_view(old(out)@)),
    decreases *t,
{
    proof {
        lemma_type_view(&t);
    }
    match t {
        Type::Var(name) => {
            if !has_name(out, name) {
                let ghost before = names_view(out@);
                out.push(name.clone());
                assert(names_view(out@) =~= before.push(name@));
            }
        },
        Type::Tuple(ts) => {
            assert(t@ == TypeModel::Tuple(nodes_view(ts@)));
            assert forall|i: int| 0 <= i < ts@.len() implies poly_free(
                #[trigger] nodes_view(ts@)[i].content,
            ) by {
                assert(poly_free(t@->Tuple_0[i].content));
            }
            collect_types_vars(ts, ts.len(), out);
            assert(nodes_view(ts@).take(ts@.len() as int) =~= nodes_view(ts@));
        },
        Type::Arr(a, b) => {
            collect_type_vars(&a.content, out);
            collect_type_vars(&b.content, out);
        },
        Type::Ind { name, params } => {
            assert(t@ == TypeModel::Ind { name: name@, params: nodes_view(params@) });
            assert forall|i: int| 0 <= i < params@.len() implies poly_free(
                #[trigger] nodes_view(params@)[i].content,
            ) by {
                assert(poly_free(t@->Ind_params[i].content));
            }
            collect_types_vars(params, params.len(), out);
            assert(nodes_view(params@).take(params@.len() as int) =~= nodes_view(params@));
        },
        _ => {},
    }
}

fn collect_types_vars(ts: &Vec<SpanType>, n: usize, out: &mut Vec<String>)
    requires
        n <= ts@.len(),
        forall|i: int| 0 <= i < ts@.len() ==> poly_free(#[trigger] nodes_view(ts@)[i].content),
    ensures
        names_view(final(out)@) == types_vars(
            nodes_view(ts@).take(n as int),
            names_view(old(out)@),
        ),
    decreases *ts, n,
{
    if n > 0 {
        collect_types_vars(ts, n - 1, out);
        assert(poly_free(nodes_view(ts@)[n - 1].content));
        collect_type_vars(&ts[n - 1].content, out);
        proof {
            let s = nodes_view(ts@).take(n as int);
            assert(s.drop_last() =~= nodes_view(ts@).take(n - 1));
            assert(s.last() == nodes_view(ts@)[n - 1]);
        }
    }
}

/// Wraps a type in a quantifier over its variables, in the order of their
/// first appearance; a type without variables is returned as it is.
pub fn construct_poly_for_free_vars(ty: SpanType) -> (r: SpanType)
    requires
        poly_free(ty@.content),
    ensures
        r@ == generalized(ty@),
{
    let mut vars: Vec<String> = Vec::new();
    assert(names_view(vars@) =~= Seq::<Seq<char>>::empty());
    collect_type_vars(&ty.content, &mut vars);
    if vars.len() == 0 {
        ty
    } else {
        let span = ty.span;
        let p = Type::Poly { vars, body: ty };
        proof {
            lemma_type_view(&p);
        }
        spanned(span, p)
    }
}

} // verus!
