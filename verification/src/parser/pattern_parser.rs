//! The parser of patterns.
//!
//! ```text
//! pat    := cons ( 'as' id )?
//! cons   := Cons basic?  |  basic
//! basic  := '(' pat (',' pat)+ ')'  |  '_'  |  id  |  '(' pat ')'
//! ```

use vstd::prelude::*;
use crate::language::{
    Span, Token, TokenModel, TokenSeq, tokens_view, Pattern, PatternModel, SpanPattern, SPattern,
    WithSpan, spanned, lemma_pattern_view, lemma_token_view, nodes_view,
};
use crate::text::left;
use crate::parser::util::{
    ParseError, Expected, is_mark, id_at, cons_at, span_over, at_mark, at_id, at_cons,
    span_between, parsed, whole,
};

verus! {

/// The basic pattern at `pos`: one token. A parenthesised group holds two or
/// more patterns separated by commas, a tuple, or exactly one pattern.
pub open spec fn pattern_basic(ts: TokenSeq, pos: nat) -> Option<SPattern>
    decreases ts, left(ts.len(), pos), 0nat,
{
    if pos >= ts.len() {
        None
    } else {
        let span = ts[pos as int].1;
        match ts[pos as int].0 {
            TokenModel::Parens(inner) => match pattern_list(inner) {
                Some(list) => Some(WithSpan { span, content: PatternModel::Tuple(list) }),
                None => match pattern_expr(inner, 0) {
                    Some((p, n)) => if n == inner.len() {
                        Some(p)
                    } else {
                        None
                    },
                    None => None,
                },
            },
            TokenModel::Wildcard => Some(WithSpan { span, content: PatternModel::Wildcard }),
            TokenModel::Id(name) => Some(
                WithSpan { span, content: PatternModel::Var(None, name) },
            ),
            _ => None,
        }
    }
}

/// The patterns of a parenthesised tuple: two or more, separated by commas,
/// that take up the whole group.
pub open spec fn pattern_list(inner: TokenSeq) -> Option<Seq<SPattern>>
    decreases inner, left(inner.len(), 0), 5nat,
{
    match pattern_expr(inner, 0) {
        Some((p, n)) => {
            let (rest, m) = pattern_list_more(inner, n);
            if rest.len() >= 1 && n + m == inner.len() {
                Some(seq![p] + rest)
            } else {
                None
            }
        },
        None => None,
    }
}

/// The patterns that follow, each behind a comma, with the number of tokens
/// taken.
pub open spec fn pattern_list_more(ts: TokenSeq, pos: nat) -> (Seq<SPattern>, nat)
    decreases ts, left(ts.len(), pos), 4nat,
{
    if is_mark(ts, pos, TokenModel::Comma) {
        match pattern_expr(ts, pos + 1) {
            Some((p, n)) => {
                let (rest, m) = pattern_list_more(ts, pos + 1 + n);
                (seq![p] + rest, 1 + n + m)
            },
            None => (Seq::empty(), 0),
        }
    } else {
        (Seq::empty(), 0)
    }
}

/// A constructor with an optional basic argument, or a basic pattern.
pub open spec fn pattern_cons(ts: TokenSeq, pos: nat) -> Option<(SPattern, nat)>
    decreases ts, left(ts.len(), pos), 1nat,
{
    match cons_at(ts, pos) {
        Some(name) => match pattern_basic(ts, pos + 1) {
            Some(b) => Some(
                (
                    WithSpan {
                        span: span_over(ts, pos, 2),
                        content: PatternModel::Cons(name, Some(Box::new(b))),
                    },
                    2,
                ),
            ),
            None => Some(
                (
                    WithSpan {
                        span: span_over(ts, pos, 1),
                        content: PatternModel::Cons(name, None),
                    },
                    1,
                ),
            ),
        },
        None => match pattern_basic(ts, pos) {
            Some(b) => Some((b, 1)),
            None => None,
        },
    }
}

/// A pattern, with an optional `as` name behind it.
pub open spec fn pattern_expr(ts: TokenSeq, pos: nat) -> Option<(SPattern, nat)>
    decreases ts, left(ts.len(), pos), 2nat,
{
    match pattern_cons(ts, pos) {
        None => None,
        Some((p, n)) => if is_mark(ts, pos + n, TokenModel::As) && id_at(ts, pos + n + 1) is Some {
            Some(
                (
                    WithSpan {
                        span: span_over(ts, pos, n + 2),
                        content: PatternModel::Var(
                            Some(Box::new(p)),
                            id_at(ts, pos + n + 1).unwrap(),
                        ),
                    },
                    n + 2,
                ),
            )
        } else {
            Some((p, n))
        },
    }
}

fn parse_pattern_basic(tokens: &Vec<(Token, Span)>, pos: usize) -> (r: Option<SpanPattern>)
    ensures
        match r {
            Some(p) => pattern_basic(tokens_view(tokens@), pos as nat) == Some(p@) && pos
                < tokens@.len(),
            None => pattern_basic(tokens_view(tokens@), pos as nat) is None,
        },
    decreases *tokens, left(tokens@.len(), pos as nat), 0nat,
{
    if pos >= tokens.len() {
        return None;
    }
    let span = tokens[pos].1;
    match &tokens[pos].0 {
        Token::Parens(inner) => {
            proof {
                lemma_token_view(&tokens@[pos as int].0);
            }
            match parse_pattern_list(inner) {
                Some(list) => {
                    let p = Pattern::Tuple(list);
                    proof {
                        lemma_pattern_view(&p);
                    }
                    Some(spanned(span, p))
                },
                None => match parse_pattern_expr(inner, 0) {
                    Some((p, end)) => if end == inner.len() {
                        Some(p)
                    } else {
                        None
                    },
                    None => None,
                },
            }
        },
        Token::Wildcard => Some(spanned(span, Pattern::Wildcard)),
        Token::Id(name) => Some(spanned(span, Pattern::Var(None, name.clone()))),
        _ => None,
    }
}

fn parse_pattern_list(inner: &Vec<(Token, Span)>) -> (r: Option<Vec<SpanPattern>>)
    ensures
        match r {
            Some(list) => pattern_list(tokens_view(inner@)) == Some(nodes_view(list@)),
            None => pattern_list(tokens_view(inner@)) is None,
        },
    decreases *inner, left(inner@.len(), 0), 5nat,
{
    match parse_pattern_expr(inner, 0) {
        Some((p, end)) => {
            let mut list: Vec<SpanPattern> = Vec::new();
            list.push(p);
            assert(nodes_view(list@) =~= seq![p@]);
            let stop = parse_pattern_list_more(inner, end, &mut list);
            proof {
                let rest = pattern_list_more(tokens_view(inner@), end as nat).0;
                assert(nodes_view(list@).len() == list@.len());
                assert((seq![p@] + rest).len() == 1 + rest.len());
            }
            if list.len() >= 2 && stop == inner.len() {
                Some(list)
            } else {
                None
            }
        },
        None => None,
    }
}

fn parse_pattern_list_more(
    tokens: &Vec<(Token, Span)>,
    pos: usize,
    out: &mut Vec<SpanPattern>,
) -> (end: usize)
    requires
        pos <= tokens@.len(),
    ensures
        nodes_view(final(out)@) == nodes_view(old(out)@) + pattern_list_more(
            tokens_view(tokens@),
            pos as nat,
        ).0,
        end == pos + pattern_list_more(tokens_view(tokens@), pos as nat).1,
        end <= tokens@.len(),
    decreases *tokens, left(tokens@.len(), pos as nat), 4nat,
{
    let len = tokens.len();
    if at_mark(tokens, pos, &Token::Comma) {
        match parse_pattern_expr(tokens, pos + 1) {
            Some((p, next)) => {
                let ghost before = nodes_view(out@);
                out.push(p);
                assert(nodes_view(out@) =~= before + seq![p@]);
                let end = parse_pattern_list_more(tokens, next, out);
                proof {
                    let rest = pattern_list_more(tokens_view(tokens@), next as nat).0;
                    assert((before + seq![p@]) + rest =~= before + (seq![p@] + rest));
                }
                end
            },
            None => {
                assert(nodes_view(out@) + Seq::<SPattern>::empty() =~= nodes_view(out@));
                pos
            },
        }
    } else {
        assert(nodes_view(out@) + Seq::<SPattern>::empty() =~= nodes_view(out@));
        pos
    }
}

fn parse_pattern_cons(tokens: &Vec<(Token, Span)>, pos: usize) -> (r: Option<(SpanPattern, usize)>)
    ensures
        parsed(r, pattern_cons(tokens_view(tokens@), pos as nat), pos, tokens@.len()),
    decreases *tokens, left(tokens@.len(), pos as nat), 1nat,
{
    let len = tokens.len();
    match at_cons(tokens, pos) {
        Some(name) => match parse_pattern_basic(tokens, pos + 1) {
            Some(b) => {
                let p = Pattern::Cons(name, Some(b));
                proof {
                    lemma_pattern_view(&p);
                }
                Some((spanned(span_between(tokens, pos, pos + 2), p), pos + 2))
            },
            None => {
                let p = Pattern::Cons(name, None);
                proof {
                    lemma_pattern_view(&p);
                }
                Some((spanned(span_between(tokens, pos, pos + 1), p), pos + 1))
            },
        },
        None => match parse_pattern_basic(tokens, pos) {
            Some(b) => Some((b, pos + 1)),
            None => None,
        },
    }
}

/// Parses a pattern at `pos`.
pub fn parse_pattern_expr(tokens: &Vec<(Token, Span)>, pos: usize) -> (r: Option<
    (SpanPattern, usize),
>)
    ensures
        parsed(r, pattern_expr(tokens_view(tokens@), pos as nat), pos, tokens@.len()),
    decreases *tokens, left(tokens@.len(), pos as nat), 2nat,
{
    let len = tokens.len();
    match parse_pattern_cons(tokens, pos) {
        None => None,
        Some((p, next)) => {
            if at_mark(tokens, next, &Token::As) {
                match at_id(tokens, next + 1) {
                    Some(name) => {
                        let q = Pattern::Var(Some(p), name);
                        proof {
                            lemma_pattern_view(&q);
                        }
                        Some((spanned(span_between(tokens, pos, next + 2), q), next + 2))
                    },
                    None => Some((p, next)),
                }
            } else {
                Some((p, next))
            }
        },
    }
}

/// Parses a whole token sequence as one pattern. A pattern that does not
/// parse stops at its first token, which starts none.
pub fn make_pattern_parser(tokens: &Vec<(Token, Span)>) -> (r: Result<SpanPattern, ParseError>)
    ensures
        match r {
            Ok(p) => whole(
                pattern_expr(tokens_view(tokens@), 0),
                tokens@.len(),
                (0, Expected::Pattern),
            ) == Ok::<
                SPattern,
                ParseError,
            >(p@),
            Err(e) => whole(
                pattern_expr(tokens_view(tokens@), 0),
                tokens@.len(),
                (0, Expected::Pattern),
            ) == Err::<
                SPattern,
                ParseError,
            >(e),
        },
{
    match parse_pattern_expr(tokens, 0) {
        Some((p, end)) => if end == tokens.len() {
            Ok(p)
        } else {
            Err(ParseError { position: end, expected: Expected::End })
        },
        None => Err(ParseError { position: 0, expected: Expected::Pattern }),
    }
}

} // verus!
