//! The parser of commands and programs.
//!
//! ```text
//! command := 'type' tvar* id '=' ty
//!          | 'type' tvar* id '=' '|'? Cons ('of' ty)? ( '|' Cons ('of' ty)? )*
//!          | 'val' id ':' ty
//!          | 'let' bind
//!          | 'eval' term
//! program := ( ('@' name)* command )*
//! ```

use vstd::prelude::*;
use crate::language::{
    Span, Token, TokenModel, TokenSeq, tokens_view, Type, TypeModel, SpanType, SType, WithSpan,
    spanned, share, lemma_type_view, nodes_view, Command, CommandModel, SpanCommand, SCommand,
    DecoratedCommand, DecoratedCommandModel, ProgramModel, program_view, cons_list_view,
};
use crate::text::{left, names_view, clone_names};
use crate::parser::util::{
    ParseError, Expected, stopped_at, is_mark, id_at, cons_at, span_over, at_mark, at_id, at_cons, span_between, parsed,
    var_run, var_names, take_vars, construct_poly_for_free_vars, generalized,
};
use crate::parser::type_parser::{type_expr, parse_type_expr, type_stop, find_type_stop};
use crate::parser::term_parser::{
    term_expr, parse_term_expr, bind_expr, parse_bind_expr, term_stop, find_term_stop, bind_stop,
    find_bind_stop, term_end, find_term_end,
};

verus! {

/// A type under the quantifier of `vars`, where there are any.
pub open spec fn quantified(vars: Seq<Seq<char>>, t: SType, span: Span) -> SType {
    if vars.len() > 0 {
        WithSpan { span, content: TypeModel::Poly { vars, body: Box::new(t) } }
    } else {
        t
    }
}

/// `type` variables name `=` type: an alias, under a quantifier where
/// variables are given.
pub open spec fn command_alias(ts: TokenSeq, pos: nat) -> Option<(SCommand, nat)> {
    let k = var_run(ts, pos + 1);
    if is_mark(ts, pos, TokenModel::Type) && id_at(ts, pos + 1 + k) is Some && is_mark(
        ts,
        pos + 2 + k,
        TokenModel::Eq,
    ) {
        match type_expr(ts, pos + 3 + k) {
            Some((t, n)) => Some(
                (
                    WithSpan {
                        span: span_over(ts, pos, 3 + k + n),
                        content: CommandModel::TypeAlias {
                            name: id_at(ts, pos + 1 + k).unwrap(),
                            def: quantified(var_names(ts, pos + 1, k), t, t.span),
                        },
                    },
                    3 + k + n,
                ),
            ),
            None => None,
        }
    } else {
        None
    }
}

/// A constructor declaration: a constructor name, and `of` with a payload
/// type where one follows; with the number of tokens taken.
pub open spec fn cons_def(ts: TokenSeq, pos: nat) -> Option<((Seq<char>, Option<SType>), nat)> {
    match cons_at(ts, pos) {
        Some(name) => if is_mark(ts, pos + 1, TokenModel::Of) {
            match type_expr(ts, pos + 2) {
                Some((t, n)) => Some(((name, Some(t)), 2 + n)),
                None => Some(((name, None), 1)),
            }
        } else {
            Some(((name, None), 1))
        },
        None => None,
    }
}

/// The constructor declarations that follow, each behind a `|`.
pub open spec fn cons_defs_more(ts: TokenSeq, pos: nat) -> (Seq<(Seq<char>, Option<SType>)>, nat)
    decreases left(ts.len(), pos),
{
    if is_mark(ts, pos, TokenModel::Vbar) {
        match cons_def(ts, pos + 1) {
            Some((c, n)) => {
                let (rest, m) = cons_defs_more(ts, pos + 1 + n);
                (seq![c] + rest, 1 + n + m)
            },
            None => (Seq::empty(), 0),
        }
    } else {
        (Seq::empty(), 0)
    }
}

/// The scheme of a constructor of the type `name` with parameters `vars`:
/// from its payload to the type, or the type itself without payload, under
/// the quantifier of `vars` where there are any. Every node carries `span`.
pub open spec fn cons_scheme(
    name: Seq<char>,
    vars: Seq<Seq<char>>,
    payload: Option<SType>,
    span: Span,
) -> SType {
    let full = WithSpan {
        span,
        content: TypeModel::Ind {
            name,
            params: Seq::new(
                vars.len(),
                |i: int| WithSpan { span, content: TypeModel::Var(vars[i]) },
            ),
        },
    };
    let body = match payload {
        Some(p) => WithSpan { span, content: TypeModel::Arr(Box::new(p), Box::new(full)) },
        None => full,
    };
    quantified(vars, body, span)
}

/// `type` variables name `=` and one or more constructor declarations
/// separated by `|`, which a `|` may precede.
pub open spec fn command_typedef(ts: TokenSeq, pos: nat) -> Option<(SCommand, nat)> {
    let k = var_run(ts, pos + 1);
    let vars = var_names(ts, pos + 1, k);
    if is_mark(ts, pos, TokenModel::Type) && id_at(ts, pos + 1 + k) is Some && is_mark(
        ts,
        pos + 2 + k,
        TokenModel::Eq,
    ) {
        let name = id_at(ts, pos + 1 + k).unwrap();
        let bar: nat = if is_mark(ts, pos + 3 + k, TokenModel::Vbar) {
            1
        } else {
            0
        };
        match cons_def(ts, pos + 3 + k + bar) {
            Some((first, n)) => {
                let (rest, m) = cons_defs_more(ts, pos + 3 + k + bar + n);
                let defs = seq![first] + rest;
                let total = 3 + k + bar + n + m;
                let span = span_over(ts, pos, total);
                Some(
                    (
                        WithSpan {
                            span,
                            content: CommandModel::TypeDef {
                                name,
                                cons_list: Seq::new(
                                    defs.len(),
                                    |i: int|
                                        (defs[i].0, cons_scheme(name, vars, defs[i].1, span)),
                                ),
                                arity: k as usize,
                            },
                        },
                        total,
                    ),
                )
            },
            None => None,
        }
    } else {
        None
    }
}

/// `val` name `:` type; the type is quantified over its variables.
pub open spec fn command_declare(ts: TokenSeq, pos: nat) -> Option<(SCommand, nat)> {
    if is_mark(ts, pos, TokenModel::Val) && id_at(ts, pos + 1) is Some && is_mark(
        ts,
        pos + 2,
        TokenModel::Colon,
    ) {
        match type_expr(ts, pos + 3) {
            Some((t, n)) => Some(
                (
                    WithSpan {
                        span: span_over(ts, pos, 3 + n),
                        content: CommandModel::TypeDeclare {
                            name: id_at(ts, pos + 1).unwrap(),
                            ty: generalized(t),
                        },
                    },
                    3 + n,
                ),
            ),
            None => None,
        }
    } else {
        None
    }
}

/// `let` and a binding.
pub open spec fn command_bind(ts: TokenSeq, pos: nat) -> Option<(SCommand, nat)> {
    if is_mark(ts, pos, TokenModel::Let) {
        match bind_expr(ts, pos + 1) {
            Some((b, n)) => Some(
                (
                    WithSpan { span: span_over(ts, pos, 1 + n), content: CommandModel::TermDef(b) },
                    1 + n,
                ),
            ),
            None => None,
        }
    } else {
        None
    }
}

/// `eval` and a term.
pub open spec fn command_eval(ts: TokenSeq, pos: nat) -> Option<(SCommand, nat)> {
    if is_mark(ts, pos, TokenModel::Eval) {
        match term_expr(ts, pos + 1) {
            Some((t, n)) => Some(
                (
                    WithSpan { span: span_over(ts, pos, 1 + n), content: CommandModel::TermEval(t) },
                    1 + n,
                ),
            ),
            None => None,
        }
    } else {
        None
    }
}

/// A command: the first of alias, type definition, declaration, binding and
/// evaluation that stands at `pos`.
pub open spec fn command_expr(ts: TokenSeq, pos: nat) -> Option<(SCommand, nat)> {
    if command_alias(ts, pos) is Some {
        command_alias(ts, pos)
    } else if command_typedef(ts, pos) is Some {
        command_typedef(ts, pos)
    } else if command_declare(ts, pos) is Some {
        command_declare(ts, pos)
    } else if command_bind(ts, pos) is Some {
        command_bind(ts, pos)
    } else {
        command_eval(ts, pos)
    }
}

/// The name that may follow `@`: an identifier or a constructor name.
pub open spec fn deco_name_at(ts: TokenSeq, pos: nat) -> Option<Seq<char>> {
    match id_at(ts, pos) {
        Some(name) => Some(name),
        None => cons_at(ts, pos),
    }
}

/// The decorators from `pos` on, with the number of tokens taken.
pub open spec fn decos_at(ts: TokenSeq, pos: nat) -> (Seq<Seq<char>>, nat)
    decreases left(ts.len(), pos),
{
    if is_mark(ts, pos, TokenModel::Deco) && deco_name_at(ts, pos + 1) is Some {
        let (rest, m) = decos_at(ts, pos + 2);
        (seq![deco_name_at(ts, pos + 1).unwrap()] + rest, 2 + m)
    } else {
        (Seq::empty(), 0)
    }
}

/// A command behind its decorators.
pub open spec fn decorated_expr(ts: TokenSeq, pos: nat) -> Option<(DecoratedCommandModel, nat)> {
    let (decos, n) = decos_at(ts, pos);
    match command_expr(ts, pos + n) {
        Some((command, m)) => Some((DecoratedCommandModel { command, decos }, n + m)),
        None => None,
    }
}

/// The decorated commands from `pos` on, up to the first position at which
/// none stands, with the number of tokens taken.
pub open spec fn program_at(ts: TokenSeq, pos: nat) -> (ProgramModel, nat)
    decreases left(ts.len(), pos),
{
    match decorated_expr(ts, pos) {
        Some((d, n)) => if n > 0 && pos < ts.len() {
            let (rest, m) = program_at(ts, pos + n);
            (seq![d] + rest, n + m)
        } else {
            (Seq::empty(), 0)
        },
        None => (Seq::empty(), 0),
    }
}

/// The token at which a command that does not parse from `pos` stops. It
/// follows the form that the first token opens: for `type`, the token in
/// place of the name or of the `=`, else the one behind a leading `|`, else
/// where the type stops; for `val`, the token in place of the name or of
/// the `:`, else where the type stops; for `let`, where the binding stops;
/// for `eval`, where the term stops. Any other token opens no command.
pub open spec fn command_stop(ts: TokenSeq, pos: nat) -> (nat, Expected) {
    let k = var_run(ts, pos + 1);
    if is_mark(ts, pos, TokenModel::Type) {
        if id_at(ts, pos + 1 + k) is None {
            (pos + 1 + k, Expected::Name)
        } else if !is_mark(ts, pos + 2 + k, TokenModel::Eq) {
            (pos + 2 + k, Expected::Equals)
        } else if is_mark(ts, pos + 3 + k, TokenModel::Vbar) {
            (pos + 4 + k, Expected::Constructor)
        } else {
            type_stop(ts, pos + 3 + k)
        }
    } else if is_mark(ts, pos, TokenModel::Val) {
        if id_at(ts, pos + 1) is None {
            (pos + 1, Expected::Name)
        } else if !is_mark(ts, pos + 2, TokenModel::Colon) {
            (pos + 2, Expected::Colon)
        } else {
            type_stop(ts, pos + 3)
        }
    } else if is_mark(ts, pos, TokenModel::Let) {
        bind_stop(ts, pos + 1)
    } else if is_mark(ts, pos, TokenModel::Eval) {
        term_stop(ts, pos + 1)
    } else {
        (pos, Expected::Command)
    }
}

/// The token at which a decorated command that does not parse from `pos`
/// stops: the one behind an `@` that no name follows, else where the
/// command behind the decorators stops.
pub open spec fn decorated_stop(ts: TokenSeq, pos: nat) -> (nat, Expected) {
    let at = pos + decos_at(ts, pos).1;
    if is_mark(ts, at, TokenModel::Deco) {
        (at + 1, Expected::Name)
    } else {
        command_stop(ts, at)
    }
}

/// The token at which the parser stops behind a command that ends at
/// `n`: where it stops behind a term, for a command that ends in one, and
/// `otherwise` for any other.
pub open spec fn command_end(
    ts: TokenSeq,
    command: CommandModel,
    n: nat,
    otherwise: (nat, Expected),
) -> (nat, Expected) {
    if command is TermDef || command is TermEval {
        term_end(ts, n, otherwise)
    } else {
        otherwise
    }
}

/// What parsing a whole token sequence as one command gives: the command
/// where it takes up every token; else the token at which the parser
/// stopped, behind the command or, where none stands at the start, in it.
pub open spec fn whole_command(ts: TokenSeq) -> Result<SCommand, ParseError> {
    match command_expr(ts, 0) {
        Some((c, n)) => if n == ts.len() {
            Ok(c)
        } else {
            Err(stopped_at(command_end(ts, c.content, n, (n, Expected::End))))
        },
        None => Err(stopped_at(command_stop(ts, 0))),
    }
}

/// What parsing a whole token sequence as a program gives: its commands
/// where they take up every token; else the token at which the parser
/// stopped, behind the last command or in the decorated command that
/// follows it and does not parse.
pub open spec fn whole_program(ts: TokenSeq) -> Result<ProgramModel, ParseError> {
    let (program, n) = program_at(ts, 0);
    if n == ts.len() {
        Ok(program)
    } else if program.len() > 0 {
        Err(stopped_at(command_end(ts, program.last().command.content, n, decorated_stop(ts, n))))
    } else {
        Err(stopped_at(decorated_stop(ts, n)))
    }
}

// ---------------------------------------------------------------------------

fn quantify(vars: &Vec<String>, t: SpanType, span: Span) -> (r: SpanType)
    ensures
        r@ == quantified(names_view(vars@), t@, span),
{
    if vars.len() > 0 {
        let p = Type::Poly { vars: clone_names(vars), body: t };
        proof {
            lemma_type_view(&p);
        }
        spanned(span, p)
    } else {
        t
    }
}

fn parse_command_alias(tokens: &Vec<(Token, Span)>, pos: usize) -> (r: Option<
    (SpanCommand, usize),
>)
    ensures
        parsed(r, command_alias(tokens_view(tokens@), pos as nat), pos, tokens@.len()),
{
    let len = tokens.len();
    let ghost ts = tokens_view(tokens@);
    if !at_mark(tokens, pos, &Token::Type) {
        return None;
    }
    let mut vars: Vec<String> = Vec::new();
    assert(names_view(vars@) =~= Seq::<Seq<char>>::empty());
    let p = take_vars(tokens, pos + 1, &mut vars);
    assert(names_view(vars@) =~= var_names(ts, (pos + 1) as nat, (p - pos - 1) as nat));
    match at_id(tokens, p) {
        Some(name) => {
            if !at_mark(tokens, p + 1, &Token::Eq) {
                return None;
            }
            match parse_type_expr(tokens, p + 2) {
                Some((t, end)) => {
                    let span = t.span;
                    let def = quantify(&vars, t, span);
                    Some(
                        (
                            spanned(
                                span_between(tokens, pos, end),
                                Command::TypeAlias { name, def },
                            ),
                            end,
                        ),
                    )
                },
                None => None,
            }
        },
        None => None,
    }
}

/// The model of a parsed constructor declaration.
pub open spec fn def_view(d: (String, Option<SpanType>)) -> (Seq<char>, Option<SType>) {
    (
        d.0@,
        match d.1 {
            Some(t) => Some(t@),
            None => None,
        },
    )
}

/// The models of a list of parsed constructor declarations.
pub open spec fn defs_view(defs: Seq<(String, Option<SpanType>)>) -> Seq<
    (Seq<char>, Option<SType>),
> {
    Seq::new(defs.len(), |i: int| def_view(defs[i]))
}

fn parse_cons_def(tokens: &Vec<(Token, Span)>, pos: usize) -> (r: Option<
    ((String, Option<SpanType>), usize),
>)
    ensures
        match r {
            Some((d, end)) => cons_def(tokens_view(tokens@), pos as nat) == Some(
                (def_view(d), (end - pos) as nat),
            ) && pos < end <= tokens@.len(),
            None => cons_def(tokens_view(tokens@), pos as nat) is None,
        },
{
    let len = tokens.len();
    match at_cons(tokens, pos) {
        Some(name) => {
            if at_mark(tokens, pos + 1, &Token::Of) {
                match parse_type_expr(tokens, pos + 2) {
                    Some((t, end)) => Some(((name, Some(t)), end)),
                    None => Some(((name, None), pos + 1)),
                }
            } else {
                Some(((name, None), pos + 1))
            }
        },
        None => None,
    }
}

fn parse_cons_defs_more(
    tokens: &Vec<(Token, Span)>,
    pos: usize,
    out: &mut Vec<(String, Option<SpanType>)>,
) -> (end: usize)
    requires
        pos <= tokens@.len(),
    ensures
        defs_view(final(out)@) == defs_view(old(out)@) + cons_defs_more(
            tokens_view(tokens@),
            pos as nat,
        ).0,
        end == pos + cons_defs_more(tokens_view(tokens@), pos as nat).1,
        end <= tokens@.len(),
    decreases tokens@.len() - pos,
{
    let len = tokens.len();
    if at_mark(tokens, pos, &Token::Vbar) {
        match parse_cons_def(tokens, pos + 1) {
            Some((d, next)) => {
                let ghost before = defs_view(out@);
                let ghost dm = def_view(d);
                out.push(d);
                assert(defs_view(out@) =~= before + seq![dm]);
                let end = parse_cons_defs_more(tokens, next, out);
                proof {
                    let rest = cons_defs_more(tokens_view(tokens@), next as nat).0;
                    assert((before + seq![dm]) + rest =~= before + (seq![dm] + rest));
                }
                end
            },
            None => {
                assert(defs_view(out@) + Seq::<(Seq<char>, Option<SType>)>::empty() =~= defs_view(
                    out@,
                ));
                pos
            },
        }
    } else {
        assert(defs_view(out@) + Seq::<(Seq<char>, Option<SType>)>::empty() =~= defs_view(out@));
        pos
    }
}

fn build_scheme(name: &String, vars: &Vec<String>, payload: Option<SpanType>, span: Span) -> (r:
    SpanType)
    ensures
        r@ == cons_scheme(
            name@,
            names_view(vars@),
            match payload {
                Some(t) => Some(t@),
                None => None,
            },
            span,
        ),
{
    let mut params: Vec<SpanType> = Vec::new();
    let mut i: usize = 0;
    while i < vars.len()
        invariant
            i <= vars@.len(),
            params@.len() == i,
            forall|j: int|
                0 <= j < i ==> (#[trigger] params@[j])@ == (WithSpan {
                    span,
                    content: TypeModel::Var(vars@[j]@),
                }),
        decreases vars@.len() - i,
    {
        params.push(spanned(span, Type::Var(vars[i].clone())));
        i = i + 1;
    }
    let ind = Type::Ind { name: name.clone(), params };
    proof {
        lemma_type_view(&ind);
        assert(nodes_view(params@) =~= Seq::new(
            names_view(vars@).len(),
            |i: int| WithSpan { span, content: TypeModel::Var(names_view(vars@)[i]) },
        ));
    }
    let full = spanned(span, ind);
    let body = match payload {
        Some(p) => {
            let arr = Type::Arr(p, full);
            proof {
                lemma_type_view(&arr);
            }
            spanned(span, arr)
        },
        None => full,
    };
    quantify(vars, body, span)
}

#[verifier::rlimit(60)]
fn parse_command_typedef(tokens: &Vec<(Token, Span)>, pos: usize) -> (r: Option<
    (SpanCommand, usize),
>)
    ensures
        parsed(r, command_typedef(tokens_view(tokens@), pos as nat), pos, tokens@.len()),
{
    let len = tokens.len();
    let ghost ts = tokens_view(tokens@);
    if !at_mark(tokens, pos, &Token::Type) {
        return None;
    }
    let mut vars: Vec<String> = Vec::new();
    assert(names_view(vars@) =~= Seq::<Seq<char>>::empty());
    let p = take_vars(tokens, pos + 1, &mut vars);
    assert(names_view(vars@) =~= var_names(ts, (pos + 1) as nat, (p - pos - 1) as nat));
    let name = match at_id(tokens, p) {
        Some(name) => name,
        None => {
            return None;
        },
    };
    if !at_mark(tokens, p + 1, &Token::Eq) {
        return None;
    }
    let start: usize = if at_mark(tokens, p + 2, &Token::Vbar) {
        p + 3
    } else {
        p + 2
    };
    match parse_cons_def(tokens, start) {
        Some((first, next)) => {
            let mut defs: Vec<(String, Option<SpanType>)> = Vec::new();
            let ghost fm = def_view(first);
            defs.push(first);
            assert(defs_view(defs@) =~= seq![fm]);
            let end = parse_cons_defs_more(tokens, next, &mut defs);
            let span = span_between(tokens, pos, end);
            let ghost dm = defs_view(defs@);
            let mut cons_list: Vec<(String, SpanType)> = Vec::new();
            let mut i: usize = 0;
            while i < defs.len()
                invariant
                    i <= defs@.len(),
                    cons_list@.len() == i,
                    dm == defs_view(defs@),
                    forall|j: int|
                        0 <= j < i ==> (#[trigger] cons_list@[j]).0@ == dm[j].0 && cons_list@[j].1@
                            == cons_scheme(name@, names_view(vars@), dm[j].1, span),
                decreases defs@.len() - i,
            {
                let payload = match &defs[i].1 {
                    Some(t) => Some(share(t)),
                    None => None,
                };
                let scheme = build_scheme(&name, &vars, payload, span);
                cons_list.push((defs[i].0.clone(), scheme));
                i = i + 1;
            }
            let ghost nm = name@;
            let arity = vars.len();
            let c = Command::TypeDef { name, cons_list, arity };
            proof {
                assert(cons_list_view(cons_list@) =~= Seq::new(
                    dm.len(),
                    |i: int| (dm[i].0, cons_scheme(nm, names_view(vars@), dm[i].1, span)),
                ));
            }
            Some((spanned(span, c), end))
        },
        None => None,
    }
}

fn parse_command_declare(tokens: &Vec<(Token, Span)>, pos: usize) -> (r: Option<
    (SpanCommand, usize),
>)
    ensures
        parsed(r, command_declare(tokens_view(tokens@), pos as nat), pos, tokens@.len()),
{
    let len = tokens.len();
    if !at_mark(tokens, pos, &Token::Val) {
        return None;
    }
    match at_id(tokens, pos + 1) {
        Some(name) => {
            if !at_mark(tokens, pos + 2, &Token::Colon) {
                return None;
            }
            match parse_type_expr(tokens, pos + 3) {
                Some((t, end)) => {
                    let ty = construct_poly_for_free_vars(t);
                    Some(
                        (
                            spanned(
                                span_between(tokens, pos, end),
                                Command::TypeDeclare { name, ty },
                            ),
                            end,
                        ),
                    )
                },
                None => None,
            }
        },
        None => None,
    }
}

fn parse_command_bind(tokens: &Vec<(Token, Span)>, pos: usize) -> (r: Option<(SpanCommand, usize)>)
    ensures
        parsed(r, command_bind(tokens_view(tokens@), pos as nat), pos, tokens@.len()),
{
    let len = tokens.len();
    if !at_mark(tokens, pos, &Token::Let) {
        return None;
    }
    match parse_bind_expr(tokens, pos + 1) {
        Some((b, end)) => Some(
            (spanned(span_between(tokens, pos, end), Command::TermDef(b)), end),
        ),
        None => None,
    }
}

fn parse_command_eval(tokens: &Vec<(Token, Span)>, pos: usize) -> (r: Option<(SpanCommand, usize)>)
    ensures
        parsed(r, command_eval(tokens_view(tokens@), pos as nat), pos, tokens@.len()),
{
    let len = tokens.len();
    if !at_mark(tokens, pos, &Token::Eval) {
        return None;
    }
    match parse_term_expr(tokens, pos + 1) {
        Some((t, end)) => Some(
            (spanned(span_between(tokens, pos, end), Command::TermEval(t)), end),
        ),
        None => None,
    }
}

/// Parses a command at `pos`.
pub fn parse_command_expr(tokens: &Vec<(Token, Span)>, pos: usize) -> (r: Option<
    (SpanCommand, usize),
>)
    ensures
        parsed(r, command_expr(tokens_view(tokens@), pos as nat), pos, tokens@.len()),
{
    match parse_command_alias(tokens, pos) {
        Some(r) => {
            return Some(r);
        },
        None => {},
    }
    match parse_command_typedef(tokens, pos) {
        Some(r) => {
            return Some(r);
        },
        None => {},
    }
    match parse_command_declare(tokens, pos) {
        Some(r) => {
            return Some(r);
        },
        None => {},
    }
    match parse_command_bind(tokens, pos) {
        Some(r) => {
            return Some(r);
        },
        None => {},
    }
    parse_command_eval(tokens, pos)
}

fn take_decos(tokens: &Vec<(Token, Span)>, pos: usize, out: &mut Vec<String>) -> (end: usize)
    requires
        pos <= tokens@.len(),
    ensures
        names_view(final(out)@) == names_view(old(out)@) + decos_at(
            tokens_view(tokens@),
            pos as nat,
        ).0,
        end == pos + decos_at(tokens_view(tokens@), pos as nat).1,
        end <= tokens@.len(),
    decreases tokens@.len() - pos,
{
    let len = tokens.len();
    if at_mark(tokens, pos, &Token::Deco) {
        let name = match at_id(tokens, pos + 1) {
            Some(name) => Some(name),
            None => at_cons(tokens, pos + 1),
        };
        match name {
            Some(name) => {
                let ghost before = names_view(out@);
                out.push(name);
                assert(names_view(out@) =~= before + seq![name@]);
                let end = take_decos(tokens, pos + 2, out);
                proof {
                    let rest = decos_at(tokens_view(tokens@), (pos + 2) as nat).0;
                    assert((before + seq![name@]) + rest =~= before + (seq![name@] + rest));
                }
                end
            },
            None => {
                assert(names_view(out@) + Seq::<Seq<char>>::empty() =~= names_view(out@));
                pos
            },
        }
    } else {
        assert(names_view(out@) + Seq::<Seq<char>>::empty() =~= names_view(out@));
        pos
    }
}

fn parse_decorated(tokens: &Vec<(Token, Span)>, pos: usize) -> (r: Option<
    (DecoratedCommand, usize),
>)
    requires
        pos <= tokens@.len(),
    ensures
        match r {
            Some((d, end)) => decorated_expr(tokens_view(tokens@), pos as nat) == Some(
                (d@, (end - pos) as nat),
            ) && pos < end <= tokens@.len(),
            None => decorated_expr(tokens_view(tokens@), pos as nat) is None,
        },
{
    let mut decos: Vec<String> = Vec::new();
    assert(names_view(decos@) =~= Seq::<Seq<char>>::empty());
    let p = take_decos(tokens, pos, &mut decos);
    assert(names_view(decos@) =~= decos_at(tokens_view(tokens@), pos as nat).0);
    match parse_command_expr(tokens, p) {
        Some((command, end)) => Some((DecoratedCommand { command, decos }, end)),
        None => None,
    }
}

proof fn lemma_program_step(ts: TokenSeq, pos: nat, d: DecoratedCommandModel, n: nat)
    requires
        decorated_expr(ts, pos) == Some((d, n)),
        n > 0,
        pos < ts.len(),
    ensures
        program_at(ts, pos).0 == seq![d] + program_at(ts, pos + n).0,
        program_at(ts, pos).1 == n + program_at(ts, pos + n).1,
{
}

proof fn lemma_program_end(ts: TokenSeq, pos: nat)
    requires
        decorated_expr(ts, pos) is None,
    ensures
        program_at(ts, pos).0 == Seq::<DecoratedCommandModel>::empty(),
        program_at(ts, pos).1 == 0,
{
}

fn parse_program_at(tokens: &Vec<(Token, Span)>, pos: usize, out: &mut Vec<DecoratedCommand>) -> (end:
    usize)
    requires
        pos <= tokens@.len(),
    ensures
        program_view(final(out)@) == program_view(old(out)@) + program_at(
            tokens_view(tokens@),
            pos as nat,
        ).0,
        end == pos + program_at(tokens_view(tokens@), pos as nat).1,
        end <= tokens@.len(),
    decreases tokens@.len() - pos,
{
    let ghost ts = tokens_view(tokens@);
    let ghost start = program_view(out@);
    match parse_decorated(tokens, pos) {
        Some((d, next)) => {
            let ghost dm = d@;
            out.push(d);
            assert(program_view(out@) =~= start + seq![dm]);
            let end = parse_program_at(tokens, next, out);
            proof {
                let rest = program_at(ts, next as nat).0;
                lemma_program_step(ts, pos as nat, dm, (next - pos) as nat);
                assert((start + seq![dm]) + rest =~= start + (seq![dm] + rest));
            }
            end
        },
        None => {
            proof {
                lemma_program_end(ts, pos as nat);
                assert(start + Seq::<DecoratedCommandModel>::empty() =~= start);
            }
            pos
        },
    }
}

/// The token at which a command that does not parse from `pos` stops.
#[verifier::rlimit(60)]
pub fn find_command_stop(tokens: &Vec<(Token, Span)>, pos: usize) -> (stop: (usize, Expected))
    requires
        pos <= tokens@.len(),
    ensures
        stop.0 == command_stop(tokens_view(tokens@), pos as nat).0,
        stop.1 == command_stop(tokens_view(tokens@), pos as nat).1,
        stop.0 <= tokens@.len(),
{
    let len = tokens.len();
    if at_mark(tokens, pos, &Token::Type) {
        let mut names: Vec<String> = Vec::new();
        let head = take_vars(tokens, pos + 1, &mut names);
        if at_id(tokens, head).is_none() {
            (head, Expected::Name)
        } else if !at_mark(tokens, head + 1, &Token::Eq) {
            (head + 1, Expected::Equals)
        } else if at_mark(tokens, head + 2, &Token::Vbar) {
            (head + 3, Expected::Constructor)
        } else {
            find_type_stop(tokens, head + 2)
        }
    } else if at_mark(tokens, pos, &Token::Val) {
        if at_id(tokens, pos + 1).is_none() {
            (pos + 1, Expected::Name)
        } else if !at_mark(tokens, pos + 2, &Token::Colon) {
            (pos + 2, Expected::Colon)
        } else {
            find_type_stop(tokens, pos + 3)
        }
    } else if at_mark(tokens, pos, &Token::Let) {
        find_bind_stop(tokens, pos + 1)
    } else if at_mark(tokens, pos, &Token::Eval) {
        find_term_stop(tokens, pos + 1)
    } else {
        (pos, Expected::Command)
    }
}

/// The token at which a decorated command that does not parse from `pos`
/// stops.
#[verifier::rlimit(60)]
pub fn find_decorated_stop(tokens: &Vec<(Token, Span)>, pos: usize) -> (stop: (usize, Expected))
    requires
        pos <= tokens@.len(),
    ensures
        stop.0 == decorated_stop(tokens_view(tokens@), pos as nat).0,
        stop.1 == decorated_stop(tokens_view(tokens@), pos as nat).1,
        stop.0 <= tokens@.len(),
{
    let len = tokens.len();
    let mut names: Vec<String> = Vec::new();
    let at = take_decos(tokens, pos, &mut names);
    if at_mark(tokens, at, &Token::Deco) {
        (at + 1, Expected::Name)
    } else {
        find_command_stop(tokens, at)
    }
}

fn ends_in_term(command: &Command) -> (b: bool)
    ensures
        b == (command@ is TermDef || command@ is TermEval),
{
    match command {
        Command::TermDef(_) => true,
        Command::TermEval(_) => true,
        _ => false,
    }
}

/// Parses a whole token sequence as one command.
#[verifier::rlimit(60)]
pub fn make_command_parser(tokens: &Vec<(Token, Span)>) -> (r: Result<SpanCommand, ParseError>)
    ensures
        match r {
            Ok(c) => whole_command(tokens_view(tokens@)) == Ok::<SCommand, ParseError>(c@),
            Err(e) => whole_command(tokens_view(tokens@)) == Err::<SCommand, ParseError>(e),
        },
{
    match parse_command_expr(tokens, 0) {
        Some((c, end)) => if end == tokens.len() {
            Ok(c)
        } else if ends_in_term(&c.content) {
            let (position, expected) = find_term_end(tokens, end, (end, Expected::End));
            Err(ParseError { position, expected })
        } else {
            Err(ParseError { position: end, expected: Expected::End })
        },
        None => {
            let (position, expected) = find_command_stop(tokens, 0);
            Err(ParseError { position, expected })
        },
    }
}

/// Parses a whole token sequence as a program: decorated commands, one
/// after the other.
#[verifier::rlimit(60)]
pub fn make_program_parser(tokens: &Vec<(Token, Span)>) -> (r: Result<
    Vec<DecoratedCommand>,
    ParseError,
>)
    ensures
        match r {
            Ok(p) => whole_program(tokens_view(tokens@)) == Ok::<ProgramModel, ParseError>(
                program_view(p@),
            ),
            Err(e) => whole_program(tokens_view(tokens@)) == Err::<ProgramModel, ParseError>(e),
        },
{
    let mut out: Vec<DecoratedCommand> = Vec::new();
    assert(program_view(out@) =~= Seq::<DecoratedCommandModel>::empty());
    let end = parse_program_at(tokens, 0, &mut out);
    assert(program_view(out@) =~= program_at(tokens_view(tokens@), 0).0);
    if end == tokens.len() {
        return Ok(out);
    }
    let stop = find_decorated_stop(tokens, end);
    let count = out.len();
    if count > 0 && ends_in_term(&out[count - 1].command.content) {
        assert(program_view(out@).last() == out@[count - 1]@);
        let (position, expected) = find_term_end(tokens, end, stop);
        Err(ParseError { position, expected })
    } else {
        Err(ParseError { position: stop.0, expected: stop.1 })
    }
}

} // verus!
