//! The parser of type expressions.
//!
//! ```text
//! ty     := tuple ( '->' ty )?
//! tuple  := cons ( '*' cons )*
//! cons   := '(' ty (',' ty)+ ')' id  |  atom? id  |  atom
//! atom   := int | bool | unit | tvar | '(' ty ')'
//! ```

use vstd::prelude::*;
use crate::language::{
    Span, Token, TokenModel, TokenSeq, tokens_view, Type, TypeModel, SpanType, SType, WithSpan,
    spanned, lemma_type_view, lemma_token_view, nodes_view,
};
use crate::text::left;
use crate::parser::util::{
    ParseError, Expected, is_mark, id_at, group_at, span_over, at_mark, at_id, span_between, whole,
    poly_free,
};

verus! {

/// The atomic type at `pos`: one token, which for a parenthesised group must
/// hold exactly one type.
pub open spec fn type_atom(ts: TokenSeq, pos: nat) -> Option<SType>
    decreases ts, left(ts.len(), pos), 0nat,
{
    if pos >= ts.len() {
        None
    } else {
        let span = ts[pos as int].1;
        match ts[pos as int].0 {
            TokenModel::Var(v) => Some(WithSpan { span, content: TypeModel::Var(v) }),
            TokenModel::Int => Some(WithSpan { span, content: TypeModel::Int }),
            TokenModel::Bool => Some(WithSpan { span, content: TypeModel::Bool }),
            TokenModel::Unit => Some(WithSpan { span, content: TypeModel::Unit }),
            TokenModel::Parens(inner) => match type_expr(inner, 0) {
                Some((t, n)) => if n == inner.len() {
                    Some(t)
                } else {
                    None
                },
                None => None,
            },
            _ => None,
        }
    }
}

/// The types of a parenthesised parameter list: two or more, separated by
/// commas, that take up the whole group.
pub open spec fn type_list(inner: TokenSeq) -> Option<Seq<SType>>
    decreases inner, left(inner.len(), 0), 5nat,
{
    match type_expr(inner, 0) {
        Some((t, n)) => {
            let (rest, m) = type_list_more(inner, n);
            if rest.len() >= 1 && n + m == inner.len() {
                Some(seq![t] + rest)
            } else {
                None
            }
        },
        None => None,
    }
}

/// The types that follow, each behind a comma, with the number of tokens
/// taken.
pub open spec fn type_list_more(ts: TokenSeq, pos: nat) -> (Seq<SType>, nat)
    decreases ts, left(ts.len(), pos), 4nat,
{
    if is_mark(ts, pos, TokenModel::Comma) {
        match type_expr(ts, pos + 1) {
            Some((t, n)) => {
                let (rest, m) = type_list_more(ts, pos + 1 + n);
                (seq![t] + rest, 1 + n + m)
            },
            None => (Seq::empty(), 0),
        }
    } else {
        (Seq::empty(), 0)
    }
}

/// A named type with its arguments, or an atom, with the number of tokens
/// taken.
pub open spec fn type_cons(ts: TokenSeq, pos: nat) -> Option<(SType, nat)>
    decreases ts, left(ts.len(), pos), 1nat,
{
    let listed = match group_at(ts, pos) {
        Some(inner) => type_list(inner),
        None => None,
    };
    if listed is Some && id_at(ts, pos + 1) is Some {
        Some(
            (
                WithSpan {
                    span: span_over(ts, pos, 2),
                    content: TypeModel::Ind {
                        name: id_at(ts, pos + 1).unwrap(),
                        params: listed.unwrap(),
                    },
                },
                2,
            ),
        )
    } else {
        match type_atom(ts, pos) {
            Some(a) => match id_at(ts, pos + 1) {
                Some(name) => Some(
                    (
                        WithSpan {
                            span: span_over(ts, pos, 2),
                            content: TypeModel::Ind { name, params: seq![a] },
                        },
                        2,
                    ),
                ),
                None => Some((a, 1)),
            },
            None => match id_at(ts, pos) {
                Some(name) => Some(
                    (
                        WithSpan {
                            span: span_over(ts, pos, 1),
                            content: TypeModel::Ind { name, params: Seq::empty() },
                        },
                        1,
                    ),
                ),
                None => None,
            },
        }
    }
}

/// The factors that follow, each behind a `*`, with the number of tokens
/// taken.
pub open spec fn type_tuple_more(ts: TokenSeq, pos: nat) -> (Seq<SType>, nat)
    decreases ts, left(ts.len(), pos), 1nat,
{
    if is_mark(ts, pos, TokenModel::Times) {
        match type_cons(ts, pos + 1) {
            Some((t, n)) => {
                let (rest, m) = type_tuple_more(ts, pos + 1 + n);
                (seq![t] + rest, 1 + n + m)
            },
            None => (Seq::empty(), 0),
        }
    } else {
        (Seq::empty(), 0)
    }
}

/// A product of one or more factors; a single factor stands for itself.
pub open spec fn type_tuple(ts: TokenSeq, pos: nat) -> Option<(SType, nat)>
    decreases ts, left(ts.len(), pos), 2nat,
{
    match type_cons(ts, pos) {
        None => None,
        Some((c, n)) => {
            let (rest, m) = type_tuple_more(ts, pos + n);
            if rest.len() == 0 {
                Some((c, n))
            } else {
                Some(
                    (
                        WithSpan {
                            span: span_over(ts, pos, n + m),
                            content: TypeModel::Tuple(seq![c] + rest),
                        },
                        n + m,
                    ),
                )
            }
        },
    }
}

/// A type expression; the arrow associates to the right.
pub open spec fn type_expr(ts: TokenSeq, pos: nat) -> Option<(SType, nat)>
    decreases ts, left(ts.len(), pos), 3nat,
{
    match type_tuple(ts, pos) {
        None => None,
        Some((t, n)) => if is_mark(ts, pos + n, TokenModel::Arrow) {
            match type_expr(ts, pos + n + 1) {
                Some((u, m)) => Some(
                    (
                        WithSpan {
                            span: span_over(ts, pos, n + 1 + m),
                            content: TypeModel::Arr(Box::new(t), Box::new(u)),
                        },
                        n + 1 + m,
                    ),
                ),
                None => Some((t, n)),
            }
        } else {
            Some((t, n))
        },
    }
}

/// Whether a parser's result is what the model gives from `pos` on.
pub open spec fn type_parsed(
    r: Option<(SpanType, usize)>,
    m: Option<(SType, nat)>,
    pos: usize,
    len: nat,
) -> bool {
    match r {
        Some((t, end)) => m == Some((t@, (end - pos) as nat)) && pos < end <= len && poly_free(
            t@.content,
        ),
        None => m is None,
    }
}

/// Whether no quantifier occurs in any type of a list.
pub open spec fn all_poly_free(ts: Seq<SType>) -> bool {
    forall|i: int| 0 <= i < ts.len() ==> poly_free(#[trigger] ts[i].content)
}

/// Whether a list parser's result is what the model gives from `pos` on.
pub open spec fn types_parsed(
    before: Seq<SpanType>,
    after: Seq<SpanType>,
    end: usize,
    m: (Seq<SType>, nat),
    pos: usize,
    len: nat,
) -> bool {
    nodes_view(after) == nodes_view(before) + m.0 && end == pos + m.1 && end <= len
        && all_poly_free(nodes_view(after))
}

fn parse_type_atom(tokens: &Vec<(Token, Span)>, pos: usize) -> (r: Option<SpanType>)
    ensures
        match r {
            Some(t) => type_atom(tokens_view(tokens@), pos as nat) == Some(t@) && pos
                < tokens@.len() && poly_free(t@.content),
            None => type_atom(tokens_view(tokens@), pos as nat) is None,
        },
    decreases *tokens, left(tokens@.len(), pos as nat), 0nat,
{
    if pos >= tokens.len() {
        return None;
    }
    let span = tokens[pos].1;
    match &tokens[pos].0 {
        Token::Var(v) => Some(spanned(span, Type::Var(v.clone()))),
        Token::Int => Some(spanned(span, Type::Int)),
        Token::Bool => Some(spanned(span, Type::Bool)),
        Token::Unit => Some(spanned(span, Type::Unit)),
        Token::Parens(inner) => {
            proof {
                lemma_token_view(&tokens@[pos as int].0);
            }
            match parse_type_expr(inner, 0) {
                Some((t, end)) => if end == inner.len() {
                    Some(t)
                } else {
                    None
                },
                None => None,
            }
        },
        _ => None,
    }
}

fn parse_type_list(inner: &Vec<(Token, Span)>) -> (r: Option<Vec<SpanType>>)
    ensures
        match r {
            Some(list) => type_list(tokens_view(inner@)) == Some(nodes_view(list@))
                && all_poly_free(nodes_view(list@)),
            None => type_list(tokens_view(inner@)) is None,
        },
    decreases *inner, left(inner@.len(), 0), 5nat,
{
    match parse_type_expr(inner, 0) {
        Some((t, end)) => {
            let mut list: Vec<SpanType> = Vec::new();
            list.push(t);
            assert(nodes_view(list@) =~= seq![t@]);
            let stop = parse_type_list_more(inner, end, &mut list);
            proof {
                let rest = type_list_more(tokens_view(inner@), end as nat).0;
                assert(nodes_view(list@).len() == list@.len());
                assert((seq![t@] + rest).len() == 1 + rest.len());
            }
            if list.len() >= 2 && stop == inner.len() {
                Some(list)
            } else {
                None
            }
        },
        None => None,
    }
}

fn parse_type_list_more(tokens: &Vec<(Token, Span)>, pos: usize, out: &mut Vec<SpanType>) -> (end:
    usize)
    requires
        pos <= tokens@.len(),
        all_poly_free(nodes_view(old(out)@)),
    ensures
        types_parsed(
            old(out)@,
            final(out)@,
            end,
            type_list_more(tokens_view(tokens@), pos as nat),
            pos,
            tokens@.len(),
        ),
    decreases *tokens, left(tokens@.len(), pos as nat), 4nat,
{
    let len = tokens.len();
    if at_mark(tokens, pos, &Token::Comma) {
        match parse_type_expr(tokens, pos + 1) {
            Some((t, next)) => {
                let ghost before = nodes_view(out@);
                out.push(t);
                assert(nodes_view(out@) =~= before + seq![t@]);
                let end = parse_type_list_more(tokens, next, out);
                proof {
                    let rest = type_list_more(tokens_view(tokens@), next as nat).0;
                    assert((before + seq![t@]) + rest =~= before + (seq![t@] + rest));
                }
                end
            },
            None => {
                assert(nodes_view(out@) + Seq::<SType>::empty() =~= nodes_view(out@));
                pos
            },
        }
    } else {
        assert(nodes_view(out@) + Seq::<SType>::empty() =~= nodes_view(out@));
        pos
    }
}

/// Parses a named type with its arguments, or an atom, at `pos`.
fn parse_type_cons(tokens: &Vec<(Token, Span)>, pos: usize) -> (r: Option<(SpanType, usize)>)
    ensures
        type_parsed(r, type_cons(tokens_view(tokens@), pos as nat), pos, tokens@.len()),
    decreases *tokens, left(tokens@.len(), pos as nat), 1nat,
{
    let len = tokens.len();
    if pos >= len {
        return None;
    }
    let ghost ts = tokens_view(tokens@);
    let listed = match &tokens[pos].0 {
        Token::Parens(inner) => {
            proof {
                lemma_token_view(&tokens@[pos as int].0);
            }
            parse_type_list(inner)
        },
        _ => None,
    };
    match listed {
        Some(params) => {
            match at_id(tokens, pos + 1) {
                Some(name) => {
                    let t = Type::Ind { name, params };
                    proof {
                        lemma_type_view(&t);
                    }
                    return Some((spanned(span_between(tokens, pos, pos + 2), t), pos + 2));
                },
                None => {},
            }
        },
        None => {},
    }
    match parse_type_atom(tokens, pos) {
        Some(a) => match at_id(tokens, pos + 1) {
            Some(name) => {
                let mut params: Vec<SpanType> = Vec::new();
                params.push(a);
                let t = Type::Ind { name, params };
                proof {
                    lemma_type_view(&t);
                    assert(nodes_view(params@) =~= seq![a@]);
                }
                Some((spanned(span_between(tokens, pos, pos + 2), t), pos + 2))
            },
            None => Some((a, pos + 1)),
        },
        None => match at_id(tokens, pos) {
            Some(name) => {
                let params: Vec<SpanType> = Vec::new();
                let t = Type::Ind { name, params };
                proof {
                    lemma_type_view(&t);
                    assert(nodes_view(params@) =~= Seq::<SType>::empty());
                }
                Some((spanned(span_between(tokens, pos, pos + 1), t), pos + 1))
            },
            None => None,
        },
    }
}

fn parse_type_tuple_more(tokens: &Vec<(Token, Span)>, pos: usize, out: &mut Vec<SpanType>) -> (end:
    usize)
    requires
        pos <= tokens@.len(),
        all_poly_free(nodes_view(old(out)@)),
    ensures
        types_parsed(
            old(out)@,
            final(out)@,
            end,
            type_tuple_more(tokens_view(tokens@), pos as nat),
            pos,
            tokens@.len(),
        ),
    decreases *tokens, left(tokens@.len(), pos as nat), 1nat,
{
    let len = tokens.len();
    if at_mark(tokens, pos, &Token::Times) {
        match parse_type_cons(tokens, pos + 1) {
            Some((t, next)) => {
                let ghost before = nodes_view(out@);
                out.push(t);
                assert(nodes_view(out@) =~= before + seq![t@]);
                let end = parse_type_tuple_more(tokens, next, out);
                proof {
                    let rest = type_tuple_more(tokens_view(tokens@), next as nat).0;
                    assert((before + seq![t@]) + rest =~= before + (seq![t@] + rest));
                }
                end
            },
            None => {
                assert(nodes_view(out@) + Seq::<SType>::empty() =~= nodes_view(out@));
                pos
            },
        }
    } else {
        assert(nodes_view(out@) + Seq::<SType>::empty() =~= nodes_view(out@));
        pos
    }
}

fn parse_type_tuple(tokens: &Vec<(Token, Span)>, pos: usize) -> (r: Option<(SpanType, usize)>)
    ensures
        type_parsed(r, type_tuple(tokens_view(tokens@), pos as nat), pos, tokens@.len()),
    decreases *tokens, left(tokens@.len(), pos as nat), 2nat,
{
    match parse_type_cons(tokens, pos) {
        None => None,
        Some((c, next)) => {
            let mut items: Vec<SpanType> = Vec::new();
            let first = crate::language::share(&c);
            items.push(c);
            assert(nodes_view(items@) =~= seq![first@]);
            let end = parse_type_tuple_more(tokens, next, &mut items);
            proof {
                let rest = type_tuple_more(tokens_view(tokens@), next as nat).0;
                assert(nodes_view(items@).len() == items@.len());
                assert((seq![first@] + rest).len() == 1 + rest.len());
            }
            if items.len() == 1 {
                Some((first, next))
            } else {
                let t = Type::Tuple(items);
                proof {
                    lemma_type_view(&t);
                }
                Some((spanned(span_between(tokens, pos, end), t), end))
            }
        },
    }
}

/// Parses a type expression at `pos`.
pub fn parse_type_expr(tokens: &Vec<(Token, Span)>, pos: usize) -> (r: Option<(SpanType, usize)>)
    ensures
        type_parsed(r, type_expr(tokens_view(tokens@), pos as nat), pos, tokens@.len()),
    decreases *tokens, left(tokens@.len(), pos as nat), 3nat,
{
    let len = tokens.len();
    match parse_type_tuple(tokens, pos) {
        None => None,
        Some((t, next)) => {
            if at_mark(tokens, next, &Token::Arrow) {
                match parse_type_expr(tokens, next + 1) {
                    Some((u, end)) => {
                        let arr = Type::Arr(t, u);
                        proof {
                            lemma_type_view(&arr);
                        }
                        Some((spanned(span_between(tokens, pos, end), arr), end))
                    },
                    None => Some((t, next)),
                }
            } else {
                Some((t, next))
            }
        },
    }
}

/// The token at which a type expression that does not parse from `pos`
/// stops, and what was looked for there: a name behind a parenthesised list
/// of types, else a type at `pos`.
pub open spec fn type_stop(ts: TokenSeq, pos: nat) -> (nat, Expected) {
    let listed = match group_at(ts, pos) {
        Some(inner) => type_list(inner),
        None => None,
    };
    if listed is Some {
        (pos + 1, Expected::Name)
    } else {
        (pos, Expected::Type)
    }
}

/// The token at which a type expression that does not parse from `pos`
/// stops.
pub fn find_type_stop(tokens: &Vec<(Token, Span)>, pos: usize) -> (stop: (usize, Expected))
    requires
        pos <= tokens@.len(),
    ensures
        stop.0 == type_stop(tokens_view(tokens@), pos as nat).0,
        stop.1 == type_stop(tokens_view(tokens@), pos as nat).1,
        stop.0 <= tokens@.len(),
{
    if pos >= tokens.len() {
        return (pos, Expected::Type);
    }
    match &tokens[pos].0 {
        Token::Parens(inner) => {
            proof {
                lemma_token_view(&tokens@[pos as int].0);
            }
            match parse_type_list(inner) {
                Some(_) => (pos + 1, Expected::Name),
                None => (pos, Expected::Type),
            }
        },
        _ => (pos, Expected::Type),
    }
}

/// Parses a whole token sequence as one type expression.
pub fn make_type_parser(tokens: &Vec<(Token, Span)>) -> (r: Result<SpanType, ParseError>)
    ensures
        match r {
            Ok(t) => whole(
                type_expr(tokens_view(tokens@), 0),
                tokens@.len(),
                type_stop(tokens_view(tokens@), 0),
            ) == Ok::<SType, ParseError>(t@),
            Err(e) => whole(
                type_expr(tokens_view(tokens@), 0),
                tokens@.len(),
                type_stop(tokens_view(tokens@), 0),
            ) == Err::<SType, ParseError>(e),
        },
{
    match parse_type_expr(tokens, 0) {
        Some((t, end)) => if end == tokens.len() {
            Ok(t)
        } else {
            Err(ParseError { position: end, expected: Expected::End })
        },
        None => {
            let (position, expected) = find_type_stop(tokens, 0);
            Err(ParseError { position, expected })
        },
    }
}

/// Parses a whole token sequence as one named type or atom: a type without
/// a top-level `*` or `->`.
pub fn make_cons_parser(tokens: &Vec<(Token, Span)>) -> (r: Result<SpanType, ParseError>)
    ensures
        match r {
            Ok(t) => whole(
                type_cons(tokens_view(tokens@), 0),
                tokens@.len(),
                type_stop(tokens_view(tokens@), 0),
            ) == Ok::<SType, ParseError>(t@),
            Err(e) => whole(
                type_cons(tokens_view(tokens@), 0),
                tokens@.len(),
                type_stop(tokens_view(tokens@), 0),
            ) == Err::<SType, ParseError>(e),
        },
{
    match parse_type_cons(tokens, 0) {
        Some((t, end)) => if end == tokens.len() {
            Ok(t)
        } else {
            Err(ParseError { position: end, expected: Expected::End })
        },
        None => {
            let (position, expected) = find_type_stop(tokens, 0);
            Err(ParseError { position, expected })
        },
    }
}

} // verus!
