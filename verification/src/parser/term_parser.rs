//! The parser of terms and bindings.
//!
//! Terms are layered: atoms, application by juxtaposition, operators by
//! precedence, and the compound forms `let`, `if`, `match` and `fun`.
//!
//! | power | operators                  | fixity     |
//! |-------|----------------------------|------------|
//! | 20    | unary `-`                  | prefix     |
//! | 10    | `*` `/`                    | left infix |
//! | 5     | `+` binary `-`             | left infix |
//! | 4     | `==` `<` `>` `<=` `>=`     | left infix |
//! | 3     | `not`                      | prefix     |
//! | 2     | `&&`                       | left infix |
//! | 1     | `\|\|`                     | left infix |

use vstd::prelude::*;
use crate::language::{
    Span, Token, TokenModel, TokenSeq, tokens_view, token_text, Term, TermModel, SpanTerm, STerm,
    Bind, BindModel, BindTerm, BindTermModel, SpanBind, SBind, SpanPattern, SPattern, CaseSeq,
    WithSpan, spanned, lemma_term_view, lemma_bind_view, lemma_token_view, nodes_view, cases_view,
};
use crate::text::{left, names_view};
use crate::parser::util::{
    ParseError, Expected, stopped_at, is_mark, id_at, span_over, at_mark, at_id, span_between,
    parsed, id_run, id_names, take_ids,
};
use crate::parser::pattern_parser::{pattern_expr, parse_pattern_expr};

verus! {

/// The binding power of a prefix operator.
pub open spec fn prefix_power(t: TokenModel) -> Option<nat> {
    match t {
        TokenModel::Dash => Some(20),
        TokenModel::Not => Some(3),
        _ => None,
    }
}

/// The binding power of an infix operator; all associate to the left.
pub open spec fn infix_power(t: TokenModel) -> Option<nat> {
    match t {
        TokenModel::Times => Some(10),
        TokenModel::Slash => Some(10),
        TokenModel::Plus => Some(5),
        TokenModel::Dash => Some(5),
        TokenModel::EqEq => Some(4),
        TokenModel::Lq => Some(4),
        TokenModel::Gq => Some(4),
        TokenModel::Leq => Some(4),
        TokenModel::Geq => Some(4),
        TokenModel::And => Some(2),
        TokenModel::Or => Some(1),
        _ => None,
    }
}

/// The prefix operator at `pos`, with its binding power.
pub open spec fn prefix_at(ts: TokenSeq, pos: nat) -> Option<nat> {
    if pos < ts.len() {
        prefix_power(ts[pos as int].0)
    } else {
        None
    }
}

/// The infix operator at `pos`, with its binding power.
pub open spec fn infix_at(ts: TokenSeq, pos: nat) -> Option<nat> {
    if pos < ts.len() {
        infix_power(ts[pos as int].0)
    } else {
        None
    }
}

/// An operator applied to its operands; its name is the operator's spelling.
pub open spec fn prim_op(ts: TokenSeq, at: nat, params: Seq<STerm>) -> TermModel {
    TermModel::PrimOp { op: token_text(ts[at as int].0), params }
}

/// The atomic term at `pos`: one token. A parenthesised group holds two or
/// more terms separated by commas, a tuple, or exactly one term.
pub open spec fn term_atomic(ts: TokenSeq, pos: nat) -> Option<STerm>
    decreases ts, left(ts.len(), pos), 0nat,
{
    if pos >= ts.len() {
        None
    } else {
        let span = ts[pos as int].1;
        match ts[pos as int].0 {
            TokenModel::UnitVal => Some(WithSpan { span, content: TermModel::Unit }),
            TokenModel::IntVal(i) => Some(WithSpan { span, content: TermModel::Int(i) }),
            TokenModel::BoolVal(b) => Some(WithSpan { span, content: TermModel::Bool(b) }),
            TokenModel::Id(name) => Some(WithSpan { span, content: TermModel::Var(name) }),
            TokenModel::Cons(name) => Some(
                WithSpan { span, content: TermModel::NativeCons(name) },
            ),
            TokenModel::Parens(inner) => match term_list(inner) {
                Some(list) => Some(WithSpan { span, content: TermModel::Tuple(list) }),
                None => match term_expr(inner, 0) {
                    Some((t, n)) => if n == inner.len() {
                        Some(t)
                    } else {
                        None
                    },
                    None => None,
                },
            },
            _ => None,
        }
    }
}

/// The terms of a parenthesised tuple: two or more, separated by commas, that
/// take up the whole group.
pub open spec fn term_list(inner: TokenSeq) -> Option<Seq<STerm>>
    decreases inner, left(inner.len(), 0), 7nat,
{
    match term_expr(inner, 0) {
        Some((t, n)) => {
            let (rest, m) = term_list_more(inner, n);
            if rest.len() >= 1 && n + m == inner.len() {
                Some(seq![t] + rest)
            } else {
                None
            }
        },
        None => None,
    }
}

/// The terms that follow, each behind a comma, with the number of tokens
/// taken.
pub open spec fn term_list_more(ts: TokenSeq, pos: nat) -> (Seq<STerm>, nat)
    decreases ts, left(ts.len(), pos), 6nat,
{
    if is_mark(ts, pos, TokenModel::Comma) {
        match term_expr(ts, pos + 1) {
            Some((t, n)) => {
                let (rest, m) = term_list_more(ts, pos + 1 + n);
                (seq![t] + rest, 1 + n + m)
            },
            None => (Seq::empty(), 0),
        }
    } else {
        (Seq::empty(), 0)
    }
}

/// The application of `f`, which started at `start`, to the atoms that stand
/// from `pos` on, one after the other, with the number of atoms.
pub open spec fn term_call_more(ts: TokenSeq, start: nat, f: STerm, pos: nat) -> (STerm, nat)
    decreases ts, left(ts.len(), pos), 1nat,
{
    match (if pos < ts.len() {
        term_atomic(ts, pos)
    } else {
        None
    }) {
        Some(x) => {
            let g = WithSpan {
                span: span_over(ts, start, (pos + 1 - start) as nat),
                content: TermModel::App(Box::new(f), Box::new(x)),
            };
            let (r, m) = term_call_more(ts, start, g, pos + 1);
            (r, 1 + m)
        },
        None => (f, 0),
    }
}

/// An atom applied to the atoms behind it, associating to the left.
pub open spec fn term_call(ts: TokenSeq, pos: nat) -> Option<(STerm, nat)>
    decreases ts, left(ts.len(), pos), 2nat,
{
    match term_atomic(ts, pos) {
        None => None,
        Some(f) => {
            let (r, m) = term_call_more(ts, pos, f, pos + 1);
            Some((r, 1 + m))
        },
    }
}

/// The operand `lhs`, which started at `start`, extended by the infix
/// operators from `pos` on whose power is at least `min`.
pub open spec fn term_pratt_more(ts: TokenSeq, start: nat, lhs: STerm, pos: nat, min: nat) -> (
    STerm,
    nat,
)
    decreases ts, left(ts.len(), pos), 3nat,
{
    match infix_at(ts, pos) {
        Some(power) => if 2 * power >= min {
            match term_pratt(ts, pos + 1, 2 * power + 1) {
                Some((rhs, n)) => {
                    let joined = WithSpan {
                        span: span_over(ts, start, (pos + 1 + n - start) as nat),
                        content: prim_op(ts, pos, seq![lhs, rhs]),
                    };
                    let (r, m) = term_pratt_more(ts, start, joined, pos + 1 + n, min);
                    (r, 1 + n + m)
                },
                None => (lhs, 0),
            }
        } else {
            (lhs, 0)
        },
        None => (lhs, 0),
    }
}

/// An operator expression whose infix operators have power at least `min`.
/// A prefix operator takes an operand of at least its own power.
pub open spec fn term_pratt(ts: TokenSeq, pos: nat, min: nat) -> Option<(STerm, nat)>
    decreases ts, left(ts.len(), pos), 4nat,
{
    let first: Option<(STerm, nat)> = match prefix_at(ts, pos) {
        Some(power) => match term_pratt(ts, pos + 1, 2 * power) {
            Some((rhs, n)) => Some(
                (
                    WithSpan {
                        span: span_over(ts, pos, 1 + n),
                        content: prim_op(ts, pos, seq![rhs]),
                    },
                    1 + n,
                ),
            ),
            None => None,
        },
        None => term_call(ts, pos),
    };
    match first {
        None => None,
        Some((lhs, n)) => {
            let (r, m) = term_pratt_more(ts, pos, lhs, pos + n, min);
            Some((r, n + m))
        },
    }
}

/// One match case: a pattern, an arrow and a term.
pub open spec fn term_case(ts: TokenSeq, pos: nat) -> Option<((SPattern, STerm), nat)>
    decreases ts, left(ts.len(), pos), 6nat,
{
    match pattern_expr(ts, pos) {
        Some((p, n)) => if is_mark(ts, pos + n, TokenModel::Arrow) {
            match term_expr(ts, pos + n + 1) {
                Some((t, m)) => Some(((p, t), n + 1 + m)),
                None => None,
            }
        } else {
            None
        },
        None => None,
    }
}

/// The cases that follow, each behind a `|`, with the number of tokens taken.
pub open spec fn term_cases_more(ts: TokenSeq, pos: nat) -> (CaseSeq, nat)
    decreases ts, left(ts.len(), pos), 7nat,
{
    if is_mark(ts, pos, TokenModel::Vbar) {
        match term_case(ts, pos + 1) {
            Some((c, n)) => {
                let (rest, m) = term_cases_more(ts, pos + 1 + n);
                (seq![c] + rest, 1 + n + m)
            },
            None => (Seq::empty(), 0),
        }
    } else {
        (Seq::empty(), 0)
    }
}

/// Zero or more cases separated by `|`.
pub open spec fn term_cases(ts: TokenSeq, pos: nat) -> (CaseSeq, nat)
    decreases ts, left(ts.len(), pos), 8nat,
{
    match term_case(ts, pos) {
        Some((c, n)) => {
            let (rest, m) = term_cases_more(ts, pos + n);
            (seq![c] + rest, n + m)
        },
        None => (Seq::empty(), 0),
    }
}

/// A case list with an optional `|` in front.
pub open spec fn term_cases_lead(ts: TokenSeq, pos: nat) -> (CaseSeq, nat)
    decreases ts, left(ts.len(), pos), 9nat,
{
    let bar: nat = if is_mark(ts, pos, TokenModel::Vbar) {
        1
    } else {
        0
    };
    let (cases, m) = term_cases(ts, pos + bar);
    (cases, bar + m)
}

/// A binding head and body: `rec? id id* = term`, or
/// `rec? id id* = function` and a case list.
pub open spec fn bind_expr(ts: TokenSeq, pos: nat) -> Option<(SBind, nat)>
    decreases ts, left(ts.len(), pos), 9nat,
{
    let rec: nat = if is_mark(ts, pos, TokenModel::Rec) {
        1
    } else {
        0
    };
    match id_at(ts, pos + rec) {
        None => None,
        Some(name) => {
            let k = id_run(ts, pos + rec + 1);
            let params = id_names(ts, pos + rec + 1, k);
            let body = pos + rec + 2 + k;
            if is_mark(ts, pos + rec + 1 + k, TokenModel::Eq) {
                match term_expr(ts, body) {
                    Some((t, n)) => Some(
                        (
                            WithSpan {
                                span: span_over(ts, pos, rec + 2 + k + n),
                                content: BindModel {
                                    bind: BindTermModel::NormalBind(t),
                                    name,
                                    params,
                                    is_rec: rec == 1,
                                },
                            },
                            rec + 2 + k + n,
                        ),
                    ),
                    None => if is_mark(ts, body, TokenModel::Function) {
                        let (cases, m) = term_cases_lead(ts, body + 1);
                        Some(
                            (
                                WithSpan {
                                    span: span_over(ts, pos, rec + 3 + k + m),
                                    content: BindModel {
                                        bind: BindTermModel::FuncBind(cases),
                                        name,
                                        params,
                                        is_rec: rec == 1,
                                    },
                                },
                                rec + 3 + k + m,
                            ),
                        )
                    } else {
                        None
                    },
                }
            } else {
                None
            }
        },
    }
}

/// `let` binding `in` term, from the `let` at `pos`.
pub open spec fn term_let(ts: TokenSeq, pos: nat) -> Option<(STerm, nat)>
    decreases ts, left(ts.len(), pos), 4nat,
{
    if pos >= ts.len() {
        None
    } else {
        match bind_expr(ts, pos + 1) {
            Some((b, n)) => if is_mark(ts, pos + 1 + n, TokenModel::In) {
                match term_expr(ts, pos + 2 + n) {
                    Some((body, m)) => Some(
                        (
                            WithSpan {
                                span: span_over(ts, pos, 2 + n + m),
                                content: TermModel::Let { bind: Box::new(b), body: Box::new(body) },
                            },
                            2 + n + m,
                        ),
                    ),
                    None => None,
                }
            } else {
                None
            },
            None => None,
        }
    }
}

/// `if` term `then` term `else` term, from the `if` at `pos`.
pub open spec fn term_if(ts: TokenSeq, pos: nat) -> Option<(STerm, nat)>
    decreases ts, left(ts.len(), pos), 4nat,
{
    if pos >= ts.len() {
        None
    } else {
        match term_expr(ts, pos + 1) {
            Some((c, n)) => if is_mark(ts, pos + 1 + n, TokenModel::Then) {
                match term_expr(ts, pos + 2 + n) {
                    Some((a, m)) => if is_mark(ts, pos + 2 + n + m, TokenModel::Else) {
                        match term_expr(ts, pos + 3 + n + m) {
                            Some((b, k)) => Some(
                                (
                                    WithSpan {
                                        span: span_over(ts, pos, 3 + n + m + k),
                                        content: TermModel::If(Box::new(c), Box::new(a), Box::new(b)),
                                    },
                                    3 + n + m + k,
                                ),
                            ),
                            None => None,
                        }
                    } else {
                        None
                    },
                    None => None,
                }
            } else {
                None
            },
            None => None,
        }
    }
}

/// `match` term `with` and a case list, which up to two `|` may precede,
/// from the `match` at `pos`.
pub open spec fn term_match(ts: TokenSeq, pos: nat) -> Option<(STerm, nat)>
    decreases ts, left(ts.len(), pos), 4nat,
{
    if pos >= ts.len() {
        None
    } else {
        match term_expr(ts, pos + 1) {
            Some((def, n)) => if is_mark(ts, pos + 1 + n, TokenModel::With) {
                let bar: nat = if is_mark(ts, pos + 2 + n, TokenModel::Vbar) {
                    1
                } else {
                    0
                };
                let (cases, m) = term_cases_lead(ts, pos + 2 + n + bar);
                Some(
                    (
                        WithSpan {
                            span: span_over(ts, pos, 2 + n + bar + m),
                            content: TermModel::Match { def: Box::new(def), cases },
                        },
                        2 + n + bar + m,
                    ),
                )
            } else {
                None
            },
            None => None,
        }
    }
}

/// `fun` parameters `->` term, from the `fun` at `pos`.
pub open spec fn term_fun(ts: TokenSeq, pos: nat) -> Option<(STerm, nat)>
    decreases ts, left(ts.len(), pos), 4nat,
{
    let k = id_run(ts, pos + 1);
    if pos < ts.len() && is_mark(ts, pos + 1 + k, TokenModel::Arrow) {
        match term_expr(ts, pos + 2 + k) {
            Some((body, m)) => Some(
                (
                    WithSpan {
                        span: span_over(ts, pos, 2 + k + m),
                        content: TermModel::Func {
                            params: id_names(ts, pos + 1, k),
                            body: Box::new(body),
                        },
                    },
                    2 + k + m,
                ),
            ),
            None => None,
        }
    } else {
        None
    }
}

/// A term: an operator expression, or one of the compound forms.
pub open spec fn term_expr(ts: TokenSeq, pos: nat) -> Option<(STerm, nat)>
    decreases ts, left(ts.len(), pos), 5nat,
{
    match term_pratt(ts, pos, 0) {
        Some(r) => Some(r),
        None => if is_mark(ts, pos, TokenModel::Let) {
            term_let(ts, pos)
        } else if is_mark(ts, pos, TokenModel::If) {
            term_if(ts, pos)
        } else if is_mark(ts, pos, TokenModel::Match) {
            term_match(ts, pos)
        } else if is_mark(ts, pos, TokenModel::Fun) {
            term_fun(ts, pos)
        } else {
            None
        },
    }
}

/// The token at which an operator expression that does not parse from `pos`
/// stops: the first behind the prefix operators that stand there, which is
/// no atom.
pub open spec fn pratt_stop(ts: TokenSeq, pos: nat) -> (nat, Expected)
    decreases left(ts.len(), pos),
{
    if prefix_at(ts, pos) is Some {
        pratt_stop(ts, pos + 1)
    } else {
        (pos, Expected::Term)
    }
}

/// The token at which the parser stops behind a term that ends at `n`:
/// behind an infix operator whose right operand does not parse, the token
/// at which that operand stops; behind anything else `otherwise`.
pub open spec fn term_end(ts: TokenSeq, n: nat, otherwise: (nat, Expected)) -> (nat, Expected) {
    match infix_at(ts, n) {
        Some(power) => if term_pratt(ts, n + 1, 2 * power + 1) is None {
            pratt_stop(ts, n + 1)
        } else {
            otherwise
        },
        None => otherwise,
    }
}

/// The token at which a binding that does not parse from `pos` stops: the
/// one in place of its name, or of its `=`, or the one at which its body
/// stops.
pub open spec fn bind_stop(ts: TokenSeq, pos: nat) -> (nat, Expected)
    decreases left(ts.len(), pos), 0nat,
{
    let rec: nat = if is_mark(ts, pos, TokenModel::Rec) {
        1
    } else {
        0
    };
    let k = id_run(ts, pos + rec + 1);
    if id_at(ts, pos + rec) is None {
        (pos + rec, Expected::Name)
    } else if !is_mark(ts, pos + rec + 1 + k, TokenModel::Eq) {
        (pos + rec + 1 + k, Expected::Equals)
    } else {
        term_stop(ts, pos + rec + 2 + k)
    }
}

/// The token at which a `let` term that does not parse from `pos` stops: in
/// its binding, behind it where no `in` follows, or in its body.
pub open spec fn let_stop(ts: TokenSeq, pos: nat) -> (nat, Expected)
    decreases left(ts.len(), pos), 0nat,
{
    if pos >= ts.len() {
        (pos, Expected::Term)
    } else {
        match bind_expr(ts, pos + 1) {
            None => bind_stop(ts, pos + 1),
            Some((_, n)) => if is_mark(ts, pos + 1 + n, TokenModel::In) {
                term_stop(ts, pos + 2 + n)
            } else {
                term_end(ts, pos + 1 + n, (pos + 1 + n, Expected::In))
            },
        }
    }
}

/// The token at which an `if` term that does not parse from `pos` stops: in
/// one of its three terms, or behind one that no `then` or `else` follows.
pub open spec fn if_stop(ts: TokenSeq, pos: nat) -> (nat, Expected)
    decreases left(ts.len(), pos), 0nat,
{
    if pos >= ts.len() {
        (pos, Expected::Term)
    } else {
        match term_expr(ts, pos + 1) {
            None => term_stop(ts, pos + 1),
            Some((_, n)) => if is_mark(ts, pos + 1 + n, TokenModel::Then) {
                match term_expr(ts, pos + 2 + n) {
                    None => term_stop(ts, pos + 2 + n),
                    Some((_, m)) => if is_mark(ts, pos + 2 + n + m, TokenModel::Else) {
                        term_stop(ts, pos + 3 + n + m)
                    } else {
                        term_end(ts, pos + 2 + n + m, (pos + 2 + n + m, Expected::Else))
                    },
                }
            } else {
                term_end(ts, pos + 1 + n, (pos + 1 + n, Expected::Then))
            },
        }
    }
}

/// The token at which a `match` term that does not parse from `pos` stops:
/// in the term it matches on, or behind it where no `with` follows.
pub open spec fn match_stop(ts: TokenSeq, pos: nat) -> (nat, Expected)
    decreases left(ts.len(), pos), 0nat,
{
    if pos >= ts.len() {
        (pos, Expected::Term)
    } else {
        match term_expr(ts, pos + 1) {
            None => term_stop(ts, pos + 1),
            Some((_, n)) => term_end(ts, pos + 1 + n, (pos + 1 + n, Expected::With)),
        }
    }
}

/// The token at which a `fun` term that does not parse from `pos` stops: in
/// place of its `->`, or in its body.
pub open spec fn fun_stop(ts: TokenSeq, pos: nat) -> (nat, Expected)
    decreases left(ts.len(), pos), 0nat,
{
    let k = id_run(ts, pos + 1);
    if pos >= ts.len() {
        (pos, Expected::Term)
    } else if is_mark(ts, pos + 1 + k, TokenModel::Arrow) {
        term_stop(ts, pos + 2 + k)
    } else {
        (pos + 1 + k, Expected::Arrow)
    }
}

/// The token at which a term that does not parse from `pos` stops: where
/// the compound form stops that its first token opens, else where the
/// operator expression does.
pub open spec fn term_stop(ts: TokenSeq, pos: nat) -> (nat, Expected)
    decreases left(ts.len(), pos), 1nat,
{
    if is_mark(ts, pos, TokenModel::Let) {
        let_stop(ts, pos)
    } else if is_mark(ts, pos, TokenModel::If) {
        if_stop(ts, pos)
    } else if is_mark(ts, pos, TokenModel::Match) {
        match_stop(ts, pos)
    } else if is_mark(ts, pos, TokenModel::Fun) {
        fun_stop(ts, pos)
    } else {
        pratt_stop(ts, pos)
    }
}

// ---------------------------------------------------------------------------

fn prefix_power_of(t: &Token) -> (r: Option<u32>)
    ensures
        match r {
            Some(p) => prefix_power(t@) == Some(p as nat),
            None => prefix_power(t@) is None,
        },
{
    match t {
        Token::Dash => Some(20),
        Token::Not => Some(3),
        _ => None,
    }
}

fn infix_power_of(t: &Token) -> (r: Option<u32>)
    ensures
        match r {
            Some(p) => infix_power(t@) == Some(p as nat) && p <= 20,
            None => infix_power(t@) is None,
        },
{
    match t {
        Token::Times => Some(10),
        Token::Slash => Some(10),
        Token::Plus => Some(5),
        Token::Dash => Some(5),
        Token::EqEq => Some(4),
        Token::Lq => Some(4),
        Token::Gq => Some(4),
        Token::Leq => Some(4),
        Token::Geq => Some(4),
        Token::And => Some(2),
        Token::Or => Some(1),
        _ => None,
    }
}

#[verifier::rlimit(60)]
fn parse_term_atomic(tokens: &Vec<(Token, Span)>, pos: usize) -> (r: Option<SpanTerm>)
    ensures
        match r {
            Some(t) => term_atomic(tokens_view(tokens@), pos as nat) == Some(t@) && pos
                < tokens@.len(),
            None => term_atomic(tokens_view(tokens@), pos as nat) is None,
        },
    decreases *tokens, left(tokens@.len(), pos as nat), 0nat,
{
    if pos >= tokens.len() {
        return None;
    }
    let span = tokens[pos].1;
    match &tokens[pos].0 {
        Token::UnitVal => Some(spanned(span, Term::Unit)),
        Token::IntVal(i) => Some(spanned(span, Term::Int(*i))),
        Token::BoolVal(b) => Some(spanned(span, Term::Bool(*b))),
        Token::Id(name) => Some(spanned(span, Term::Var(name.clone()))),
        Token::Cons(name) => Some(spanned(span, Term::NativeCons(name.clone()))),
        Token::Parens(inner) => {
            proof {
                lemma_token_view(&tokens@[pos as int].0);
            }
            match parse_term_list(inner) {
                Some(list) => {
                    let t = Term::Tuple(list);
                    proof {
                        lemma_term_view(&t);
                    }
                    Some(spanned(span, t))
                },
                None => match parse_term_expr(inner, 0) {
                    Some((t, end)) => if end == inner.len() {
                        Some(t)
                    } else {
                        None
                    },
                    None => None,
                },
            }
        },
        _ => None,
    }
}

#[verifier::rlimit(60)]
fn parse_term_list(inner: &Vec<(Token, Span)>) -> (r: Option<Vec<SpanTerm>>)
    ensures
        match r {
            Some(list) => term_list(tokens_view(inner@)) == Some(nodes_view(list@)),
            None => term_list(tokens_view(inner@)) is None,
        },
    decreases *inner, left(inner@.len(), 0), 7nat,
{
    match parse_term_expr(inner, 0) {
        Some((t, end)) => {
            let mut list: Vec<SpanTerm> = Vec::new();
            list.push(t);
            assert(nodes_view(list@) =~= seq![t@]);
            let stop = parse_term_list_more(inner, end, &mut list);
            proof {
                let rest = term_list_more(tokens_view(inner@), end as nat).0;
                assert(nodes_view(list@).len() == list@.len());
                assert((seq![t@] + rest).len() == 1 + rest.len());
            }
            if list.len() >= 2 && stop == inner.len() {
                Some(list)
            } else {
                None
            }
        },
        None => None,
    }
}

fn parse_term_list_more(tokens: &Vec<(Token, Span)>, pos: usize, out: &mut Vec<SpanTerm>) -> (end:
    usize)
    requires
        pos <= tokens@.len(),
    ensures
        nodes_view(final(out)@) == nodes_view(old(out)@) + term_list_more(
            tokens_view(tokens@),
            pos as nat,
        ).0,
        end == pos + term_list_more(tokens_view(tokens@), pos as nat).1,
        end <= tokens@.len(),
    decreases *tokens, left(tokens@.len(), pos as nat), 6nat,
{
    let len = tokens.len();
    if at_mark(tokens, pos, &Token::Comma) {
        match parse_term_expr(tokens, pos + 1) {
            Some((t, next)) => {
                let ghost before = nodes_view(out@);
                out.push(t);
                assert(nodes_view(out@) =~= before + seq![t@]);
                let end = parse_term_list_more(tokens, next, out);
                proof {
                    let rest = term_list_more(tokens_view(tokens@), next as nat).0;
                    assert((before + seq![t@]) + rest =~= before + (seq![t@] + rest));
                }
                end
            },
            None => {
                assert(nodes_view(out@) + Seq::<STerm>::empty() =~= nodes_view(out@));
                pos
            },
        }
    } else {
        assert(nodes_view(out@) + Seq::<STerm>::empty() =~= nodes_view(out@));
        pos
    }
}

fn parse_term_call_more(tokens: &Vec<(Token, Span)>, start: usize, f: SpanTerm, pos: usize) -> (r: (
    SpanTerm,
    usize,
))
    requires
        start < pos <= tokens@.len(),
    ensures
        (r.0@, (r.1 - pos) as nat) == term_call_more(
            tokens_view(tokens@),
            start as nat,
            f@,
            pos as nat,
        ),
        pos <= r.1 <= tokens@.len(),
    decreases *tokens, left(tokens@.len(), pos as nat), 1nat,
{
    let len = tokens.len();
    match parse_term_atomic(tokens, pos) {
        Some(x) => {
            let app = Term::App(f, x);
            proof {
                lemma_term_view(&app);
            }
            let g = spanned(span_between(tokens, start, pos + 1), app);
            parse_term_call_more(tokens, start, g, pos + 1)
        },
        None => (f, pos),
    }
}

fn parse_term_call(tokens: &Vec<(Token, Span)>, pos: usize) -> (r: Option<(SpanTerm, usize)>)
    ensures
        parsed(r, term_call(tokens_view(tokens@), pos as nat), pos, tokens@.len()),
    decreases *tokens, left(tokens@.len(), pos as nat), 2nat,
{
    let len = tokens.len();
    match parse_term_atomic(tokens, pos) {
        None => None,
        Some(f) => Some(parse_term_call_more(tokens, pos, f, pos + 1)),
    }
}

fn parse_term_pratt_more(
    tokens: &Vec<(Token, Span)>,
    start: usize,
    lhs: SpanTerm,
    pos: usize,
    min: u32,
) -> (r: (SpanTerm, usize))
    requires
        start < pos <= tokens@.len(),
        min <= 41,
    ensures
        (r.0@, (r.1 - pos) as nat) == term_pratt_more(
            tokens_view(tokens@),
            start as nat,
            lhs@,
            pos as nat,
            min as nat,
        ),
        pos <= r.1 <= tokens@.len(),
    decreases *tokens, left(tokens@.len(), pos as nat), 3nat,
{
    if pos >= tokens.len() {
        return (lhs, pos);
    }
    match infix_power_of(&tokens[pos].0) {
        Some(power) => {
            if 2 * power >= min {
                match parse_term_pratt(tokens, pos + 1, 2 * power + 1) {
                    Some((rhs, next)) => {
                        let mut params: Vec<SpanTerm> = Vec::new();
                        params.push(lhs);
                        params.push(rhs);
                        let op = Term::PrimOp { op: tokens[pos].0.to_string(), params };
                        proof {
                            lemma_term_view(&op);
                            assert(nodes_view(params@) =~= seq![lhs@, rhs@]);
                        }
                        let joined = spanned(span_between(tokens, start, next), op);
                        parse_term_pratt_more(tokens, start, joined, next, min)
                    },
                    None => (lhs, pos),
                }
            } else {
                (lhs, pos)
            }
        },
        None => (lhs, pos),
    }
}

fn parse_term_pratt(tokens: &Vec<(Token, Span)>, pos: usize, min: u32) -> (r: Option<
    (SpanTerm, usize),
>)
    requires
        min <= 41,
    ensures
        parsed(r, term_pratt(tokens_view(tokens@), pos as nat, min as nat), pos, tokens@.len()),
    decreases *tokens, left(tokens@.len(), pos as nat), 4nat,
{
    let len = tokens.len();
    let prefix = if pos < len {
        prefix_power_of(&tokens[pos].0)
    } else {
        None
    };
    let first = match prefix {
        Some(power) => match parse_term_pratt(tokens, pos + 1, 2 * power) {
            Some((rhs, next)) => {
                let mut params: Vec<SpanTerm> = Vec::new();
                params.push(rhs);
                let op = Term::PrimOp { op: tokens[pos].0.to_string(), params };
                proof {
                    lemma_term_view(&op);
                    assert(nodes_view(params@) =~= seq![rhs@]);
                }
                Some((spanned(span_between(tokens, pos, next), op), next))
            },
            None => None,
        },
        None => parse_term_call(tokens, pos),
    };
    match first {
        None => None,
        Some((lhs, next)) => Some(parse_term_pratt_more(tokens, pos, lhs, next, min)),
    }
}

fn parse_term_case(tokens: &Vec<(Token, Span)>, pos: usize) -> (r: Option<
    ((SpanPattern, SpanTerm), usize),
>)
    ensures
        match r {
            Some((c, end)) => term_case(tokens_view(tokens@), pos as nat) == Some(
                ((c.0@, c.1@), (end - pos) as nat),
            ) && pos < end <= tokens@.len(),
            None => term_case(tokens_view(tokens@), pos as nat) is None,
        },
    decreases *tokens, left(tokens@.len(), pos as nat), 6nat,
{
    let len = tokens.len();
    match parse_pattern_expr(tokens, pos) {
        Some((p, next)) => {
            if at_mark(tokens, next, &Token::Arrow) {
                match parse_term_expr(tokens, next + 1) {
                    Some((t, end)) => Some(((p, t), end)),
                    None => None,
                }
            } else {
                None
            }
        },
        None => None,
    }
}

#[verifier::rlimit(60)]
fn parse_term_cases_more(
    tokens: &Vec<(Token, Span)>,
    pos: usize,
    out: &mut Vec<(SpanPattern, SpanTerm)>,
) -> (end: usize)
    requires
        pos <= tokens@.len(),
    ensures
        cases_view(final(out)@) == cases_view(old(out)@) + term_cases_more(
            tokens_view(tokens@),
            pos as nat,
        ).0,
        end == pos + term_cases_more(tokens_view(tokens@), pos as nat).1,
        end <= tokens@.len(),
    decreases *tokens, left(tokens@.len(), pos as nat), 7nat,
{
    let len = tokens.len();
    if at_mark(tokens, pos, &Token::Vbar) {
        match parse_term_case(tokens, pos + 1) {
            Some((c, next)) => {
                let ghost before = cases_view(out@);
                let ghost cm = (c.0@, c.1@);
                out.push(c);
                assert(cases_view(out@) =~= before + seq![cm]);
                let end = parse_term_cases_more(tokens, next, out);
                proof {
                    let rest = term_cases_more(tokens_view(tokens@), next as nat).0;
                    assert((before + seq![cm]) + rest =~= before + (seq![cm] + rest));
                }
                end
            },
            None => {
                assert(cases_view(out@) + Seq::<(SPattern, STerm)>::empty() =~= cases_view(out@));
                pos
            },
        }
    } else {
        assert(cases_view(out@) + Seq::<(SPattern, STerm)>::empty() =~= cases_view(out@));
        pos
    }
}

#[verifier::rlimit(60)]
fn parse_term_cases(tokens: &Vec<(Token, Span)>, pos: usize) -> (r: (
    Vec<(SpanPattern, SpanTerm)>,
    usize,
))
    requires
        pos <= tokens@.len(),
    ensures
        cases_view(r.0@) == term_cases(tokens_view(tokens@), pos as nat).0,
        r.1 == pos + term_cases(tokens_view(tokens@), pos as nat).1,
        r.1 <= tokens@.len(),
    decreases *tokens, left(tokens@.len(), pos as nat), 8nat,
{
    let mut out: Vec<(SpanPattern, SpanTerm)> = Vec::new();
    match parse_term_case(tokens, pos) {
        Some((c, next)) => {
            let ghost cm = (c.0@, c.1@);
            out.push(c);
            assert(cases_view(out@) =~= seq![cm]);
            let end = parse_term_cases_more(tokens, next, &mut out);
            proof {
                let rest = term_cases_more(tokens_view(tokens@), next as nat).0;
                assert(cases_view(out@) == seq![cm] + rest);
            }
            (out, end)
        },
        None => {
            assert(cases_view(out@) =~= Seq::<(SPattern, STerm)>::empty());
            (out, pos)
        },
    }
}

/// Parses a case list with an optional `|` in front, at `pos`.
#[verifier::rlimit(60)]
pub fn parse_term_cases_lead(tokens: &Vec<(Token, Span)>, pos: usize) -> (r: (
    Vec<(SpanPattern, SpanTerm)>,
    usize,
))
    requires
        pos <= tokens@.len(),
    ensures
        cases_view(r.0@) == term_cases_lead(tokens_view(tokens@), pos as nat).0,
        r.1 == pos + term_cases_lead(tokens_view(tokens@), pos as nat).1,
        r.1 <= tokens@.len(),
    decreases *tokens, left(tokens@.len(), pos as nat), 9nat,
{
    let len = tokens.len();
    if at_mark(tokens, pos, &Token::Vbar) {
        parse_term_cases(tokens, pos + 1)
    } else {
        parse_term_cases(tokens, pos)
    }
}

/// Parses a binding at `pos`.
#[verifier::rlimit(60)]
pub fn parse_bind_expr(tokens: &Vec<(Token, Span)>, pos: usize) -> (r: Option<(SpanBind, usize)>)
    ensures
        parsed(r, bind_expr(tokens_view(tokens@), pos as nat), pos, tokens@.len()),
    decreases *tokens, left(tokens@.len(), pos as nat), 9nat,
{
    let len = tokens.len();
    let ghost ts = tokens_view(tokens@);
    let is_rec = at_mark(tokens, pos, &Token::Rec);
    let head: usize = if is_rec {
        pos + 1
    } else {
        pos
    };
    match at_id(tokens, head) {
        None => None,
        Some(name) => {
            let mut params: Vec<String> = Vec::new();
            assert(names_view(params@) =~= Seq::<Seq<char>>::empty());
            let eq = take_ids(tokens, head + 1, &mut params);
            assert(names_view(params@) =~= id_names(ts, (head + 1) as nat, (eq - head - 1) as nat));
            if !at_mark(tokens, eq, &Token::Eq) {
                return None;
            }
            match parse_term_expr(tokens, eq + 1) {
                Some((t, end)) => {
                    let b = Bind { bind: BindTerm::NormalBind(t), name, params, is_rec };
                    proof {
                        lemma_bind_view(&b);
                    }
                    Some((spanned(span_between(tokens, pos, end), b), end))
                },
                None => {
                    if at_mark(tokens, eq + 1, &Token::Function) {
                        let (cases, end) = parse_term_cases_lead(tokens, eq + 2);
                        let b = Bind { bind: BindTerm::FuncBind(cases), name, params, is_rec };
                        proof {
                            lemma_bind_view(&b);
                        }
                        Some((spanned(span_between(tokens, pos, end), b), end))
                    } else {
                        None
                    }
                },
            }
        },
    }
}

#[verifier::rlimit(60)]
fn parse_term_let(tokens: &Vec<(Token, Span)>, pos: usize) -> (r: Option<(SpanTerm, usize)>)
    requires
        pos < tokens@.len(),
    ensures
        parsed(r, term_let(tokens_view(tokens@), pos as nat), pos, tokens@.len()),
    decreases *tokens, left(tokens@.len(), pos as nat), 4nat,
{
    let len = tokens.len();
    match parse_bind_expr(tokens, pos + 1) {
        Some((b, next)) => {
            if at_mark(tokens, next, &Token::In) {
                match parse_term_expr(tokens, next + 1) {
                    Some((body, end)) => {
                        let t = Term::Let { bind: b, body };
                        proof {
                            lemma_term_view(&t);
                        }
                        Some((spanned(span_between(tokens, pos, end), t), end))
                    },
                    None => None,
                }
            } else {
                None
            }
        },
        None => None,
    }
}

#[verifier::rlimit(60)]
fn parse_term_if(tokens: &Vec<(Token, Span)>, pos: usize) -> (r: Option<(SpanTerm, usize)>)
    requires
        pos < tokens@.len(),
    ensures
        parsed(r, term_if(tokens_view(tokens@), pos as nat), pos, tokens@.len()),
    decreases *tokens, left(tokens@.len(), pos as nat), 4nat,
{
    let len = tokens.len();
    match parse_term_expr(tokens, pos + 1) {
        Some((c, then_at)) => {
            if !at_mark(tokens, then_at, &Token::Then) {
                return None;
            }
            match parse_term_expr(tokens, then_at + 1) {
                Some((a, else_at)) => {
                    if !at_mark(tokens, else_at, &Token::Else) {
                        return None;
                    }
                    match parse_term_expr(tokens, else_at + 1) {
                        Some((b, end)) => {
                            let t = Term::If(c, a, b);
                            proof {
                                lemma_term_view(&t);
                            }
                            Some((spanned(span_between(tokens, pos, end), t), end))
                        },
                        None => None,
                    }
                },
                None => None,
            }
        },
        None => None,
    }
}

#[verifier::rlimit(60)]
fn parse_term_match(tokens: &Vec<(Token, Span)>, pos: usize) -> (r: Option<(SpanTerm, usize)>)
    requires
        pos < tokens@.len(),
    ensures
        parsed(r, term_match(tokens_view(tokens@), pos as nat), pos, tokens@.len()),
    decreases *tokens, left(tokens@.len(), pos as nat), 4nat,
{
    let len = tokens.len();
    match parse_term_expr(tokens, pos + 1) {
        Some((def, with_at)) => {
            if !at_mark(tokens, with_at, &Token::With) {
                return None;
            }
            let cases_at: usize = if at_mark(tokens, with_at + 1, &Token::Vbar) {
                with_at + 2
            } else {
                with_at + 1
            };
            let (cases, end) = parse_term_cases_lead(tokens, cases_at);
            let t = Term::Match { def, cases };
            proof {
                lemma_term_view(&t);
            }
            Some((spanned(span_between(tokens, pos, end), t), end))
        },
        None => None,
    }
}

#[verifier::rlimit(60)]
fn parse_term_fun(tokens: &Vec<(Token, Span)>, pos: usize) -> (r: Option<(SpanTerm, usize)>)
    requires
        pos < tokens@.len(),
    ensures
        parsed(r, term_fun(tokens_view(tokens@), pos as nat), pos, tokens@.len()),
    decreases *tokens, left(tokens@.len(), pos as nat), 4nat,
{
    let len = tokens.len();
    let ghost ts = tokens_view(tokens@);
    let mut params: Vec<String> = Vec::new();
    assert(names_view(params@) =~= Seq::<Seq<char>>::empty());
    let arrow = take_ids(tokens, pos + 1, &mut params);
    assert(names_view(params@) =~= id_names(ts, (pos + 1) as nat, (arrow - pos - 1) as nat));
    if !at_mark(tokens, arrow, &Token::Arrow) {
        return None;
    }
    match parse_term_expr(tokens, arrow + 1) {
        Some((body, end)) => {
            let t = Term::Func { params, body };
            proof {
                lemma_term_view(&t);
            }
            Some((spanned(span_between(tokens, pos, end), t), end))
        },
        None => None,
    }
}

/// Parses a term at `pos`.
pub fn parse_term_expr(tokens: &Vec<(Token, Span)>, pos: usize) -> (r: Option<(SpanTerm, usize)>)
    ensures
        parsed(r, term_expr(tokens_view(tokens@), pos as nat), pos, tokens@.len()),
    decreases *tokens, left(tokens@.len(), pos as nat), 5nat,
{
    match parse_term_pratt(tokens, pos, 0) {
        Some(r) => Some(r),
        None => {
            if at_mark(tokens, pos, &Token::Let) {
                parse_term_let(tokens, pos)
            } else if at_mark(tokens, pos, &Token::If) {
                parse_term_if(tokens, pos)
            } else if at_mark(tokens, pos, &Token::Match) {
                parse_term_match(tokens, pos)
            } else if at_mark(tokens, pos, &Token::Fun) {
                parse_term_fun(tokens, pos)
            } else {
                None
            }
        },
    }
}

fn find_pratt_stop(tokens: &Vec<(Token, Span)>, pos: usize) -> (stop: (usize, Expected))
    requires
        pos <= tokens@.len(),
    ensures
        stop.0 == pratt_stop(tokens_view(tokens@), pos as nat).0,
        stop.1 == pratt_stop(tokens_view(tokens@), pos as nat).1,
        stop.0 <= tokens@.len(),
    decreases tokens@.len() - pos,
{
    if pos >= tokens.len() {
        return (pos, Expected::Term);
    }
    match prefix_power_of(&tokens[pos].0) {
        Some(_) => find_pratt_stop(tokens, pos + 1),
        None => (pos, Expected::Term),
    }
}

/// The token at which the parser stops behind a term that ends at `n`.
#[verifier::rlimit(60)]
pub fn find_term_end(tokens: &Vec<(Token, Span)>, n: usize, otherwise: (usize, Expected)) -> (stop: (
    usize,
    Expected,
))
    requires
        n <= tokens@.len(),
        otherwise.0 <= tokens@.len(),
    ensures
        stop.0 == term_end(tokens_view(tokens@), n as nat, (otherwise.0 as nat, otherwise.1)).0,
        stop.1 == term_end(tokens_view(tokens@), n as nat, (otherwise.0 as nat, otherwise.1)).1,
        stop.0 <= tokens@.len(),
{
    if n >= tokens.len() {
        return otherwise;
    }
    match infix_power_of(&tokens[n].0) {
        Some(power) => match parse_term_pratt(tokens, n + 1, 2 * power + 1) {
            None => find_pratt_stop(tokens, n + 1),
            Some(_) => otherwise,
        },
        None => otherwise,
    }
}

/// The token at which a binding that does not parse from `pos` stops.
#[verifier::rlimit(60)]
pub fn find_bind_stop(tokens: &Vec<(Token, Span)>, pos: usize) -> (stop: (usize, Expected))
    requires
        pos <= tokens@.len(),
    ensures
        stop.0 == bind_stop(tokens_view(tokens@), pos as nat).0,
        stop.1 == bind_stop(tokens_view(tokens@), pos as nat).1,
        stop.0 <= tokens@.len(),
    decreases left(tokens@.len(), pos as nat), 0nat,
{
    let len = tokens.len();
    let head: usize = if at_mark(tokens, pos, &Token::Rec) {
        pos + 1
    } else {
        pos
    };
    if at_id(tokens, head).is_none() {
        return (head, Expected::Name);
    }
    let mut names: Vec<String> = Vec::new();
    let eq = take_ids(tokens, head + 1, &mut names);
    if at_mark(tokens, eq, &Token::Eq) {
        find_term_stop(tokens, eq + 1)
    } else {
        (eq, Expected::Equals)
    }
}

#[verifier::rlimit(60)]
fn find_let_stop(tokens: &Vec<(Token, Span)>, pos: usize) -> (stop: (usize, Expected))
    requires
        pos <= tokens@.len(),
    ensures
        stop.0 == let_stop(tokens_view(tokens@), pos as nat).0,
        stop.1 == let_stop(tokens_view(tokens@), pos as nat).1,
        stop.0 <= tokens@.len(),
    decreases left(tokens@.len(), pos as nat), 0nat,
{
    let len = tokens.len();
    if pos >= tokens.len() {
        return (pos, Expected::Term);
    }
    match parse_bind_expr(tokens, pos + 1) {
        None => find_bind_stop(tokens, pos + 1),
        Some((_, next)) => if at_mark(tokens, next, &Token::In) {
            find_term_stop(tokens, next + 1)
        } else {
            find_term_end(tokens, next, (next, Expected::In))
        },
    }
}

#[verifier::rlimit(60)]
fn find_if_stop(tokens: &Vec<(Token, Span)>, pos: usize) -> (stop: (usize, Expected))
    requires
        pos <= tokens@.len(),
    ensures
        stop.0 == if_stop(tokens_view(tokens@), pos as nat).0,
        stop.1 == if_stop(tokens_view(tokens@), pos as nat).1,
        stop.0 <= tokens@.len(),
    decreases left(tokens@.len(), pos as nat), 0nat,
{
    let len = tokens.len();
    if pos >= tokens.len() {
        return (pos, Expected::Term);
    }
    match parse_term_expr(tokens, pos + 1) {
        None => find_term_stop(tokens, pos + 1),
        Some((_, then_at)) => if at_mark(tokens, then_at, &Token::Then) {
            match parse_term_expr(tokens, then_at + 1) {
                None => find_term_stop(tokens, then_at + 1),
                Some((_, else_at)) => if at_mark(tokens, else_at, &Token::Else) {
                    find_term_stop(tokens, else_at + 1)
                } else {
                    find_term_end(tokens, else_at, (else_at, Expected::Else))
                },
            }
        } else {
            find_term_end(tokens, then_at, (then_at, Expected::Then))
        },
    }
}

#[verifier::rlimit(60)]
fn find_match_stop(tokens: &Vec<(Token, Span)>, pos: usize) -> (stop: (usize, Expected))
    requires
        pos <= tokens@.len(),
    ensures
        stop.0 == match_stop(tokens_view(tokens@), pos as nat).0,
        stop.1 == match_stop(tokens_view(tokens@), pos as nat).1,
        stop.0 <= tokens@.len(),
    decreases left(tokens@.len(), pos as nat), 0nat,
{
    let len = tokens.len();
    if pos >= tokens.len() {
        return (pos, Expected::Term);
    }
    match parse_term_expr(tokens, pos + 1) {
        None => find_term_stop(tokens, pos + 1),
        Some((_, with_at)) => find_term_end(tokens, with_at, (with_at, Expected::With)),
    }
}

#[verifier::rlimit(60)]
fn find_fun_stop(tokens: &Vec<(Token, Span)>, pos: usize) -> (stop: (usize, Expected))
    requires
        pos <= tokens@.len(),
    ensures
        stop.0 == fun_stop(tokens_view(tokens@), pos as nat).0,
        stop.1 == fun_stop(tokens_view(tokens@), pos as nat).1,
        stop.0 <= tokens@.len(),
    decreases left(tokens@.len(), pos as nat), 0nat,
{
    let len = tokens.len();
    if pos >= tokens.len() {
        return (pos, Expected::Term);
    }
    let mut names: Vec<String> = Vec::new();
    let arrow = take_ids(tokens, pos + 1, &mut names);
    if at_mark(tokens, arrow, &Token::Arrow) {
        find_term_stop(tokens, arrow + 1)
    } else {
        (arrow, Expected::Arrow)
    }
}

/// The token at which a term that does not parse from `pos` stops.
#[verifier::rlimit(60)]
pub fn find_term_stop(tokens: &Vec<(Token, Span)>, pos: usize) -> (stop: (usize, Expected))
    requires
        pos <= tokens@.len(),
    ensures
        stop.0 == term_stop(tokens_view(tokens@), pos as nat).0,
        stop.1 == term_stop(tokens_view(tokens@), pos as nat).1,
        stop.0 <= tokens@.len(),
    decreases left(tokens@.len(), pos as nat), 1nat,
{
    let len = tokens.len();
    if at_mark(tokens, pos, &Token::Let) {
        find_let_stop(tokens, pos)
    } else if at_mark(tokens, pos, &Token::If) {
        find_if_stop(tokens, pos)
    } else if at_mark(tokens, pos, &Token::Match) {
        find_match_stop(tokens, pos)
    } else if at_mark(tokens, pos, &Token::Fun) {
        find_fun_stop(tokens, pos)
    } else {
        find_pratt_stop(tokens, pos)
    }
}

/// What parsing a whole token sequence as one term gives: the term where
/// it takes up every token; else the token at which the parser stopped,
/// behind the term or, where none stands at the start, in it.
pub open spec fn whole_term(ts: TokenSeq) -> Result<STerm, ParseError> {
    match term_expr(ts, 0) {
        Some((t, n)) => if n == ts.len() {
            Ok(t)
        } else {
            Err(stopped_at(term_end(ts, n, (n, Expected::End))))
        },
        None => Err(stopped_at(term_stop(ts, 0))),
    }
}

/// Parses a whole token sequence as one term.
pub fn make_term_parser(tokens: &Vec<(Token, Span)>) -> (r: Result<SpanTerm, ParseError>)
    ensures
        match r {
            Ok(t) => whole_term(tokens_view(tokens@)) == Ok::<STerm, ParseError>(t@),
            Err(e) => whole_term(tokens_view(tokens@)) == Err::<STerm, ParseError>(e),
        },
{
    match parse_term_expr(tokens, 0) {
        Some((t, end)) => if end == tokens.len() {
            Ok(t)
        } else {
            let (position, expected) = find_term_end(tokens, end, (end, Expected::End));
            Err(ParseError { position, expected })
        },
        None => {
            let (position, expected) = find_term_stop(tokens, 0);
            Err(ParseError { position, expected })
        },
    }
}

/// What parsing a whole token sequence as a case list gives.
pub open spec fn whole_cases(ts: TokenSeq) -> Result<CaseSeq, ParseError> {
    let (cases, n) = term_cases_lead(ts, 0);
    if n == ts.len() {
        Ok(cases)
    } else {
        Err(ParseError { position: n as usize, expected: Expected::End })
    }
}

/// Parses a whole token sequence as a list of match cases, which a `|` may
/// precede.
pub fn make_cases_parser(tokens: &Vec<(Token, Span)>) -> (r: Result<
    Vec<(SpanPattern, SpanTerm)>,
    ParseError,
>)
    ensures
        match r {
            Ok(cases) => whole_cases(tokens_view(tokens@)) == Ok::<CaseSeq, ParseError>(
                cases_view(cases@),
            ),
            Err(e) => whole_cases(tokens_view(tokens@)) == Err::<CaseSeq, ParseError>(e),
        },
{
    let (cases, end) = parse_term_cases_lead(tokens, 0);
    if end == tokens.len() {
        Ok(cases)
    } else {
        Err(ParseError { position: end, expected: Expected::End })
    }
}

/// What parsing a whole token sequence as one binding gives: the binding
/// where it takes up every token; else the token at which the parser
/// stopped, behind the binding or, where none stands at the start, in it.
pub open spec fn whole_bind(ts: TokenSeq) -> Result<SBind, ParseError> {
    match bind_expr(ts, 0) {
        Some((b, n)) => if n == ts.len() {
            Ok(b)
        } else {
            Err(stopped_at(term_end(ts, n, (n, Expected::End))))
        },
        None => Err(stopped_at(bind_stop(ts, 0))),
    }
}

/// Parses a whole token sequence as one binding.
pub fn make_bind_parser(tokens: &Vec<(Token, Span)>) -> (r: Result<SpanBind, ParseError>)
    ensures
        match r {
            Ok(b) => whole_bind(tokens_view(tokens@)) == Ok::<SBind, ParseError>(b@),
            Err(e) => whole_bind(tokens_view(tokens@)) == Err::<SBind, ParseError>(e),
        },
{
    match parse_bind_expr(tokens, 0) {
        Some((b, end)) => if end == tokens.len() {
            Ok(b)
        } else {
            let (position, expected) = find_term_end(tokens, end, (end, Expected::End));
            Err(ParseError { position, expected })
        },
        None => {
            let (position, expected) = find_bind_stop(tokens, 0);
            Err(ParseError { position, expected })
        },
    }
}

} // verus!
