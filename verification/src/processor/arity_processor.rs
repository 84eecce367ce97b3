//! Arity canonicalisation: the internal form gives every data constructor
//! one argument, the surface form allows constructors without argument.
//!
//! `RemoverZeroArity` reads the type definitions of a program from top to
//! bottom, gives every constructor without payload the payload `unit`, and
//! rewrites the uses of such constructors; `AddZeroArity` undoes this. Both
//! carry a context that says of each constructor seen so far whether it is
//! nullary.

use vstd::prelude::*;
use crate::language::{
    Span, WithSpan, spanned, share, Type, TypeModel, SpanType, SType, Pattern, PatternModel,
    SpanPattern, SPattern, Term, TermModel, SpanTerm, STerm, BindModel, BindTerm, BindTermModel,
    SpanBind, SBind, CaseSeq, Command, CommandModel, DecoratedCommand, DecoratedCommandModel,
    ProgramModel, program_view, cons_list_view, nodes_view, cases_view, Context, entries,
    find_entry, bind_into, look_up, empty_context, lemma_type_view, lemma_pattern_view,
    lemma_term_view, lemma_bind_view,
};
use crate::text::{names_view, clone_names};
use crate::processor::processor::{
    Arity, all_some, unwrap_all, opt_node, unfold_scheme, build_scheme, unfold_cons_type,
    build_cons_type,
};

verus! {

// ---------------------------------------------------------------------------
// Patterns and terms without nullary constructors
// ---------------------------------------------------------------------------

/// A pattern in which every nullary constructor has the argument `_`.
///
/// `None` where a constructor is not in the context, a nullary constructor
/// has an argument, or another constructor has none.
pub open spec fn rz_pattern(c: Arity, p: SPattern) -> Option<SPattern>
    decreases p, 0nat,
{
    match p.content {
        PatternModel::Wildcard => Some(p),
        PatternModel::Var(inner, name) => match inner {
            Some(q) => match rz_pattern(c, *q) {
                Some(q2) => Some(
                    WithSpan { span: p.span, content: PatternModel::Var(Some(Box::new(q2)), name) },
                ),
                None => None,
            },
            None => Some(p),
        },
        PatternModel::Tuple(ps) => {
            let rs = rz_patterns(c, ps);
            if all_some(rs) {
                Some(WithSpan { span: p.span, content: PatternModel::Tuple(unwrap_all(rs)) })
            } else {
                None
            }
        },
        PatternModel::Cons(name, inner) => match find_entry(c, name) {
            None => None,
            Some(nullary) => match inner {
                Some(q) => if nullary {
                    None
                } else {
                    match rz_pattern(c, *q) {
                        Some(q2) => Some(
                            WithSpan {
                                span: p.span,
                                content: PatternModel::Cons(name, Some(Box::new(q2))),
                            },
                        ),
                        None => None,
                    }
                },
                None => if nullary {
                    Some(
                        WithSpan {
                            span: p.span,
                            content: PatternModel::Cons(
                                name,
                                Some(
                                    Box::new(
                                        WithSpan { span: p.span, content: PatternModel::Wildcard },
                                    ),
                                ),
                            ),
                        },
                    )
                } else {
                    None
                },
            },
        },
    }
}

/// The patterns of a list, each rewritten.
pub open spec fn rz_patterns(c: Arity, ps: Seq<SPattern>) -> Seq<Option<SPattern>>
    decreases ps, 1nat,
{
    Seq::new(
        ps.len(),
        |i: int|
            if 0 <= i < ps.len() {
                rz_pattern(c, ps[i])
            } else {
                None
            },
    )
}

/// An application with both sides rewritten, except that a constructor
/// with payload applied to an argument becomes the constructor term of the
/// rewritten argument.
pub open spec fn rz_term_app(c: Arity, t: STerm) -> Option<STerm>
    decreases t, 0nat,
{
    match t.content {
        TermModel::App(f, x) => rz_app_of(c, t.span, *f, *x, rz_term(c, *f), rz_term(c, *x)),
        _ => None,
    }
}

/// The application of `f` to `x` at `span`, given both sides rewritten.
pub open spec fn rz_app_of(
    c: Arity,
    span: Span,
    f: STerm,
    x: STerm,
    f2: Option<STerm>,
    x2: Option<STerm>,
) -> Option<STerm> {
    let plain = match (f2, x2) {
        (Some(f2), Some(x2)) => Some(
            WithSpan { span, content: TermModel::App(Box::new(f2), Box::new(x2)) },
        ),
        _ => None,
    };
    match f.content {
        TermModel::NativeCons(name) => match find_entry(c, name) {
            None => None,
            Some(nullary) => if nullary {
                plain
            } else {
                match x2 {
                    Some(x2) => Some(
                        WithSpan { span, content: TermModel::Cons { cons: name, body: Box::new(x2) } },
                    ),
                    None => None,
                }
            },
        },
        _ => plain,
    }
}

/// A term in which every nullary constructor is applied to `()`.
///
/// `None` where a constructor name that stands as a value is not in the
/// context, or a pattern or part of the term is refused.
pub open spec fn rz_term(c: Arity, t: STerm) -> Option<STerm>
    decreases t, 1nat,
{
    match t.content {
        TermModel::Int(_) | TermModel::Bool(_) | TermModel::Unit | TermModel::Var(_) => Some(t),
        TermModel::If(a, b, d) => match (rz_term(c, *a), rz_term(c, *b), rz_term(c, *d)) {
            (Some(a2), Some(b2), Some(d2)) => Some(
                WithSpan {
                    span: t.span,
                    content: TermModel::If(Box::new(a2), Box::new(b2), Box::new(d2)),
                },
            ),
            _ => None,
        },
        TermModel::PrimOp { op, params } => {
            let rs = rz_terms(c, params);
            if all_some(rs) {
                Some(WithSpan { span: t.span, content: TermModel::PrimOp { op, params: unwrap_all(rs) } })
            } else {
                None
            }
        },
        TermModel::App(_, _) => rz_term_app(c, t),
        TermModel::Func { params, body } => match rz_term(c, *body) {
            Some(b2) => Some(
                WithSpan { span: t.span, content: TermModel::Func { params, body: Box::new(b2) } },
            ),
            None => None,
        },
        TermModel::Tuple(ts) => {
            let rs = rz_terms(c, ts);
            if all_some(rs) {
                Some(WithSpan { span: t.span, content: TermModel::Tuple(unwrap_all(rs)) })
            } else {
                None
            }
        },
        TermModel::Match { def, cases } => {
            let rs = rz_term_cases(c, cases);
            match rz_term(c, *def) {
                Some(d2) => if all_some(rs) {
                    Some(
                        WithSpan {
                            span: t.span,
                            content: TermModel::Match { def: Box::new(d2), cases: unwrap_all(rs) },
                        },
                    )
                } else {
                    None
                },
                None => None,
            }
        },
        TermModel::Cons { cons, body } => match rz_term(c, *body) {
            Some(b2) => Some(
                WithSpan { span: t.span, content: TermModel::Cons { cons, body: Box::new(b2) } },
            ),
            None => None,
        },
        TermModel::Let { bind, body } => match (rz_bind(c, *bind), rz_term(c, *body)) {
            (Some(b2), Some(t2)) => Some(
                WithSpan {
                    span: t.span,
                    content: TermModel::Let { bind: Box::new(b2), body: Box::new(t2) },
                },
            ),
            _ => None,
        },
        TermModel::NativeCons(name) => match find_entry(c, name) {
            None => None,
            Some(nullary) => if nullary {
                Some(
                    WithSpan {
                        span: t.span,
                        content: TermModel::Cons {
                            cons: name,
                            body: Box::new(WithSpan { span: t.span, content: TermModel::Unit }),
                        },
                    },
                )
            } else {
                Some(t)
            },
        },
    }
}

/// The terms of a list, each rewritten.
pub open spec fn rz_terms(c: Arity, ts: Seq<STerm>) -> Seq<Option<STerm>>
    decreases ts, 1nat,
{
    Seq::new(
        ts.len(),
        |i: int|
            if 0 <= i < ts.len() {
                rz_term(c, ts[i])
            } else {
                None
            },
    )
}

/// The cases of a list, each with its pattern and its branch rewritten.
pub open spec fn rz_term_cases(c: Arity, cases: CaseSeq) -> Seq<Option<(SPattern, STerm)>>
    decreases cases, 1nat,
{
    Seq::new(
        cases.len(),
        |i: int|
            if 0 <= i < cases.len() {
                match (rz_pattern(c, cases[i].0), rz_term(c, cases[i].1)) {
                    (Some(pat), Some(t2)) => Some((pat, t2)),
                    _ => None,
                }
            } else {
                None
            },
    )
}

/// A binding with its definition rewritten: the term of a plain binding,
/// the patterns and branches of a `function` binding.
pub open spec fn rz_bind(c: Arity, b: SBind) -> Option<SBind>
    decreases b, 0nat,
{
    match b.content.bind {
        BindTermModel::NormalBind(d) => match rz_term(c, d) {
            Some(d2) => Some(
                WithSpan {
                    span: b.span,
                    content: BindModel { bind: BindTermModel::NormalBind(d2), ..b.content },
                },
            ),
            None => None,
        },
        BindTermModel::FuncBind(cases) => {
            let rs = rz_term_cases(c, cases);
            if all_some(rs) {
                Some(
                    WithSpan {
                        span: b.span,
                        content: BindModel {
                            bind: BindTermModel::FuncBind(unwrap_all(rs)),
                            ..b.content
                        },
                    },
                )
            } else {
                None
            }
        },
    }
}

/// A constructor declaration with a payload, and whether the constructor
/// was declared without one: a scheme whose body is no arrow gets the
/// payload `unit`, with the span of the scheme.
pub open spec fn rz_cons(d: (Seq<char>, SType)) -> ((Seq<char>, SType), bool) {
    let (vars, body) = unfold_scheme(d.1);
    if body.content is Arr {
        (d, false)
    } else {
        (
            (
                d.0,
                build_scheme(
                    vars,
                    WithSpan {
                        span: d.1.span,
                        content: TypeModel::Arr(
                            Box::new(WithSpan { span: d.1.span, content: TypeModel::Unit }),
                            Box::new(body),
                        ),
                    },
                ),
            ),
            true,
        )
    }
}

/// The context after the constructor declarations of a type definition.
pub open spec fn rz_bindings(cons_list: Seq<(Seq<char>, SType)>, c: Arity) -> Arity
    decreases cons_list.len(),
{
    if cons_list.len() == 0 {
        c
    } else {
        seq![(cons_list.last().0, rz_cons(cons_list.last()).1)] + rz_bindings(
            cons_list.drop_last(),
            c,
        )
    }
}

/// A command rewritten in the context `c`.
pub open spec fn rz_command(c: Arity, command: CommandModel) -> Option<CommandModel> {
    match command {
        CommandModel::TypeDef { name, cons_list, arity } => Some(
            CommandModel::TypeDef {
                name,
                cons_list: Seq::new(cons_list.len(), |i: int| rz_cons(cons_list[i]).0),
                arity,
            },
        ),
        CommandModel::TermEval(t) => match rz_term(c, t) {
            Some(t2) => Some(CommandModel::TermEval(t2)),
            None => None,
        },
        CommandModel::TermDef(b) => match rz_bind(c, b) {
            Some(b2) => Some(CommandModel::TermDef(b2)),
            None => None,
        },
        _ => Some(command),
    }
}

/// The context after a command.
pub open spec fn rz_after(c: Arity, command: CommandModel) -> Arity {
    match command {
        CommandModel::TypeDef { name, cons_list, arity } => rz_bindings(cons_list, c),
        _ => c,
    }
}

/// The context after the commands of a program.
pub open spec fn rz_context(c: Arity, p: ProgramModel) -> Arity
    decreases p.len(),
{
    if p.len() == 0 {
        c
    } else {
        rz_after(rz_context(c, p.drop_last()), p.last().command.content)
    }
}

/// The commands of a program, each rewritten in the context that the
/// commands before it leave.
pub open spec fn rz_commands(c: Arity, p: ProgramModel) -> Seq<Option<DecoratedCommandModel>> {
    Seq::new(
        p.len(),
        |i: int|
            match rz_command(rz_context(c, p.take(i)), p[i].command.content) {
                Some(c2) => Some(
                    DecoratedCommandModel {
                        command: WithSpan { span: p[i].command.span, content: c2 },
                        decos: p[i].decos,
                    },
                ),
                None => None,
            },
    )
}

/// A program without nullary constructors; `None` where a command is
/// refused.
pub open spec fn remove_zero_arity(c: Arity, p: ProgramModel) -> Option<ProgramModel> {
    if all_some(rz_commands(c, p)) {
        Some(unwrap_all(rz_commands(c, p)))
    } else {
        None
    }
}

// ---------------------------------------------------------------------------
// Patterns and terms with nullary constructors
// ---------------------------------------------------------------------------

/// A pattern in which every nullary constructor stands without argument.
///
/// `None` where a constructor is not in the context.
pub open spec fn az_pattern(c: Arity, p: SPattern) -> Option<SPattern>
    decreases p, 0nat,
{
    match p.content {
        PatternModel::Wildcard => Some(p),
        PatternModel::Var(inner, name) => match inner {
            Some(q) => match az_pattern(c, *q) {
                Some(q2) => Some(
                    WithSpan { span: p.span, content: PatternModel::Var(Some(Box::new(q2)), name) },
                ),
                None => None,
            },
            None => Some(p),
        },
        PatternModel::Tuple(ps) => {
            let rs = az_patterns(c, ps);
            if all_some(rs) {
                Some(WithSpan { span: p.span, content: PatternModel::Tuple(unwrap_all(rs)) })
            } else {
                None
            }
        },
        PatternModel::Cons(name, inner) => match find_entry(c, name) {
            None => None,
            Some(nullary) => if nullary {
                Some(WithSpan { span: p.span, content: PatternModel::Cons(name, None) })
            } else {
                match inner {
                    Some(q) => match az_pattern(c, *q) {
                        Some(q2) => Some(
                            WithSpan {
                                span: p.span,
                                content: PatternModel::Cons(name, Some(Box::new(q2))),
                            },
                        ),
                        None => None,
                    },
                    None => Some(p),
                }
            },
        },
    }
}

/// The patterns of a list, each rewritten.
pub open spec fn az_patterns(c: Arity, ps: Seq<SPattern>) -> Seq<Option<SPattern>>
    decreases ps, 1nat,
{
    Seq::new(
        ps.len(),
        |i: int|
            if 0 <= i < ps.len() {
                az_pattern(c, ps[i])
            } else {
                None
            },
    )
}

/// An application with both sides rewritten, except that a nullary
/// constructor applied to `()` becomes the constructor name; applied to
/// anything else it is refused.
pub open spec fn az_term_app(c: Arity, t: STerm) -> Option<STerm>
    decreases t, 0nat,
{
    match t.content {
        TermModel::App(f, x) => az_app_of(c, t.span, *f, *x, az_term(c, *f), az_term(c, *x)),
        _ => None,
    }
}

/// The application of `f` to `x` at `span`, given both sides rewritten.
pub open spec fn az_app_of(
    c: Arity,
    span: Span,
    f: STerm,
    x: STerm,
    f2: Option<STerm>,
    x2: Option<STerm>,
) -> Option<STerm> {
    let plain = match (f2, x2) {
        (Some(f2), Some(x2)) => Some(
            WithSpan { span, content: TermModel::App(Box::new(f2), Box::new(x2)) },
        ),
        _ => None,
    };
    match f.content {
        TermModel::NativeCons(name) => match find_entry(c, name) {
            None => None,
            Some(nullary) => if nullary {
                if x.content is Unit {
                    Some(WithSpan { span, content: TermModel::NativeCons(name) })
                } else {
                    None
                }
            } else {
                plain
            },
        },
        _ => plain,
    }
}

/// The name of the parameter of the function that stands for a nullary
/// constructor name.
pub open spec fn dummy_name() -> Seq<char> {
    "tmp"@
}

/// A term in which every nullary constructor stands as a bare name.
///
/// `None` where a constructor is not in the context, a nullary constructor
/// is applied to anything but `()`, or a pattern or part of the term is
/// refused. A nullary constructor name that already stands bare is put
/// under a function of one unused parameter.
pub open spec fn az_term(c: Arity, t: STerm) -> Option<STerm>
    decreases t, 1nat,
{
    match t.content {
        TermModel::Int(_) | TermModel::Bool(_) | TermModel::Unit | TermModel::Var(_) => Some(t),
        TermModel::If(a, b, d) => match (az_term(c, *a), az_term(c, *b), az_term(c, *d)) {
            (Some(a2), Some(b2), Some(d2)) => Some(
                WithSpan {
                    span: t.span,
                    content: TermModel::If(Box::new(a2), Box::new(b2), Box::new(d2)),
                },
            ),
            _ => None,
        },
        TermModel::PrimOp { op, params } => {
            let rs = az_terms(c, params);
            if all_some(rs) {
                Some(WithSpan { span: t.span, content: TermModel::PrimOp { op, params: unwrap_all(rs) } })
            } else {
                None
            }
        },
        TermModel::App(_, _) => az_term_app(c, t),
        TermModel::Func { params, body } => match az_term(c, *body) {
            Some(b2) => Some(
                WithSpan { span: t.span, content: TermModel::Func { params, body: Box::new(b2) } },
            ),
            None => None,
        },
        TermModel::Tuple(ts) => {
            let rs = az_terms(c, ts);
            if all_some(rs) {
                Some(WithSpan { span: t.span, content: TermModel::Tuple(unwrap_all(rs)) })
            } else {
                None
            }
        },
        TermModel::Match { def, cases } => {
            let rs = az_term_cases(c, cases);
            match az_term(c, *def) {
                Some(d2) => if all_some(rs) {
                    Some(
                        WithSpan {
                            span: t.span,
                            content: TermModel::Match { def: Box::new(d2), cases: unwrap_all(rs) },
                        },
                    )
                } else {
                    None
                },
                None => None,
            }
        },
        TermModel::Let { bind, body } => match (az_bind(c, *bind), az_term(c, *body)) {
            (Some(b2), Some(t2)) => Some(
                WithSpan {
                    span: t.span,
                    content: TermModel::Let { bind: Box::new(b2), body: Box::new(t2) },
                },
            ),
            _ => None,
        },
        TermModel::Cons { cons, body } => match find_entry(c, cons) {
            None => None,
            Some(nullary) => if nullary {
                if body.content is Unit {
                    Some(WithSpan { span: t.span, content: TermModel::NativeCons(cons) })
                } else {
                    None
                }
            } else {
                match az_term(c, *body) {
                    Some(b2) => Some(
                        WithSpan {
                            span: t.span,
                            content: TermModel::Cons { cons, body: Box::new(b2) },
                        },
                    ),
                    None => None,
                }
            },
        },
        TermModel::NativeCons(name) => match find_entry(c, name) {
            None => None,
            Some(nullary) => if nullary {
                Some(
                    WithSpan {
                        span: t.span,
                        content: TermModel::Func { params: seq![dummy_name()], body: Box::new(t) },
                    },
                )
            } else {
                Some(t)
            },
        },
    }
}

/// The terms of a list, each rewritten.
pub open spec fn az_terms(c: Arity, ts: Seq<STerm>) -> Seq<Option<STerm>>
    decreases ts, 1nat,
{
    Seq::new(
        ts.len(),
        |i: int|
            if 0 <= i < ts.len() {
                az_term(c, ts[i])
            } else {
                None
            },
    )
}

/// The cases of a list, each with its pattern and its branch rewritten.
pub open spec fn az_term_cases(c: Arity, cases: CaseSeq) -> Seq<Option<(SPattern, STerm)>>
    decreases cases, 1nat,
{
    Seq::new(
        cases.len(),
        |i: int|
            if 0 <= i < cases.len() {
                match (az_pattern(c, cases[i].0), az_term(c, cases[i].1)) {
                    (Some(pat), Some(t2)) => Some((pat, t2)),
                    _ => None,
                }
            } else {
                None
            },
    )
}

/// A binding with its definition rewritten: the term of a plain binding,
/// the patterns and branches of a `function` binding.
pub open spec fn az_bind(c: Arity, b: SBind) -> Option<SBind>
    decreases b, 0nat,
{
    match b.content.bind {
        BindTermModel::NormalBind(d) => match az_term(c, d) {
            Some(d2) => Some(
                WithSpan {
                    span: b.span,
                    content: BindModel { bind: BindTermModel::NormalBind(d2), ..b.content },
                },
            ),
            None => None,
        },
        BindTermModel::FuncBind(cases) => {
            let rs = az_term_cases(c, cases);
            if all_some(rs) {
                Some(
                    WithSpan {
                        span: b.span,
                        content: BindModel {
                            bind: BindTermModel::FuncBind(unwrap_all(rs)),
                            ..b.content
                        },
                    },
                )
            } else {
                None
            }
        },
    }
}

/// A constructor declaration in surface form, and whether the constructor
/// is nullary: a scheme from `unit` loses that payload. `None` where the
/// body of the scheme is no arrow.
pub open spec fn az_cons(d: (Seq<char>, SType)) -> Option<((Seq<char>, SType), bool)> {
    let (vars, body) = unfold_scheme(d.1);
    match body.content {
        TypeModel::Arr(payload, result) => if payload.content is Unit {
            Some(((d.0, build_scheme(vars, *result)), true))
        } else {
            Some((d, false))
        },
        _ => None,
    }
}

/// The constructor declarations of a type definition, each rewritten.
pub open spec fn az_conses(cons_list: Seq<(Seq<char>, SType)>) -> Seq<
    Option<((Seq<char>, SType), bool)>,
> {
    Seq::new(cons_list.len(), |i: int| az_cons(cons_list[i]))
}

/// The context after the constructor declarations of a type definition,
/// each of which `az_cons` accepts.
pub open spec fn az_bindings(cons_list: Seq<(Seq<char>, SType)>, c: Arity) -> Arity
    decreases cons_list.len(),
{
    if cons_list.len() == 0 {
        c
    } else {
        seq![(cons_list.last().0, az_cons(cons_list.last()).unwrap().1)] + az_bindings(
            cons_list.drop_last(),
            c,
        )
    }
}

/// A command rewritten in the context `c`.
pub open spec fn az_command(c: Arity, command: CommandModel) -> Option<CommandModel> {
    match command {
        CommandModel::TypeDef { name, cons_list, arity } => if all_some(az_conses(cons_list)) {
            Some(
                CommandModel::TypeDef {
                    name,
                    cons_list: Seq::new(
                        cons_list.len(),
                        |i: int| az_cons(cons_list[i]).unwrap().0,
                    ),
                    arity,
                },
            )
        } else {
            None
        },
        CommandModel::TermEval(t) => match az_term(c, t) {
            Some(t2) => Some(CommandModel::TermEval(t2)),
            None => None,
        },
        CommandModel::TermDef(b) => match az_bind(c, b) {
            Some(b2) => Some(CommandModel::TermDef(b2)),
            None => None,
        },
        _ => Some(command),
    }
}

/// The context after a command that `az_command` accepts.
pub open spec fn az_after(c: Arity, command: CommandModel) -> Arity {
    match command {
        CommandModel::TypeDef { name, cons_list, arity } => az_bindings(cons_list, c),
        _ => c,
    }
}

/// The context after the commands of a program.
pub open spec fn az_context(c: Arity, p: ProgramModel) -> Arity
    decreases p.len(),
{
    if p.len() == 0 {
        c
    } else {
        az_after(az_context(c, p.drop_last()), p.last().command.content)
    }
}

/// The commands of a program, each rewritten in the context that the
/// commands before it leave.
pub open spec fn az_commands(c: Arity, p: ProgramModel) -> Seq<Option<DecoratedCommandModel>> {
    Seq::new(
        p.len(),
        |i: int|
            match az_command(az_context(c, p.take(i)), p[i].command.content) {
                Some(c2) => Some(
                    DecoratedCommandModel {
                        command: WithSpan { span: p[i].command.span, content: c2 },
                        decos: p[i].decos,
                    },
                ),
                None => None,
            },
    )
}

/// A program with nullary constructors; `None` where a command is refused.
pub open spec fn add_zero_arity(c: Arity, p: ProgramModel) -> Option<ProgramModel> {
    if all_some(az_commands(c, p)) {
        Some(unwrap_all(az_commands(c, p)))
    } else {
        None
    }
}

// ---------------------------------------------------------------------------
// The passes
// ---------------------------------------------------------------------------

/// Gives every constructor a payload.
pub struct RemoverZeroArity {
    pub context: Context<bool>,
}

impl Default for RemoverZeroArity {
    fn default() -> (r: Self)
        ensures
            r.arity() == Seq::<(Seq<char>, bool)>::empty(),
    {
        RemoverZeroArity { context: empty_context() }
    }
}

impl RemoverZeroArity {
    /// The constructors seen so far.
    pub open spec fn arity(&self) -> Arity {
        entries(&self.context)
    }

    /// Rewrites a pattern.
    #[verifier::loop_isolation(false)]
    pub fn process_pattern(&self, pattern: &SpanPattern) -> (r: Option<SpanPattern>)
        ensures
            opt_node(r) == rz_pattern(self.arity(), pattern@),
        decreases pattern, 0nat,
    {
        proof {
            lemma_pattern_view(&pattern.content);
        }
        match &pattern.content {
            Pattern::Wildcard => Some(share(pattern)),
            Pattern::Var(inner, name) => match inner {
                Some(q) => match self.process_pattern(q) {
                    Some(q2) => {
                        let n = Pattern::Var(Some(q2), name.clone());
                        proof {
                            lemma_pattern_view(&n);
                        }
                        Some(spanned(pattern.span, n))
                    },
                    None => None,
                },
                None => Some(share(pattern)),
            },
            Pattern::Tuple(ps) => {
                let ghost rs = rz_patterns(self.arity(), nodes_view(ps@));
                let mut out: Vec<SpanPattern> = Vec::new();
                let mut i: usize = 0;
                while i < ps.len()
                    invariant
                        i <= ps@.len(),
                        out@.len() == i,
                        forall|j: int| 0 <= j < i ==> (#[trigger] rs[j]) == Some(out@[j]@),
                    decreases ps@.len() - i,
                {
                    match self.process_pattern(&ps[i]) {
                        Some(v) => {
                            out.push(v);
                        },
                        None => {
                            assert(rs[i as int] is None);
                            return None;
                        },
                    }
                    i = i + 1;
                }
                assert(nodes_view(out@) =~= unwrap_all(rs));
                let n = Pattern::Tuple(out);
                proof {
                    lemma_pattern_view(&n);
                }
                Some(spanned(pattern.span, n))
            },
            Pattern::Cons(name, inner) => {
                let nullary = match look_up(name.as_str(), &self.context) {
                    Some(flag) => flag,
                    None => {
                        return None;
                    },
                };
                match inner {
                    Some(q) => {
                        if nullary {
                            return None;
                        }
                        match self.process_pattern(q) {
                            Some(q2) => {
                                let n = Pattern::Cons(name.clone(), Some(q2));
                                proof {
                                    lemma_pattern_view(&n);
                                }
                                Some(spanned(pattern.span, n))
                            },
                            None => None,
                        }
                    },
                    None => {
                        if !nullary {
                            return None;
                        }
                        let w = spanned(pattern.span, Pattern::Wildcard);
                        let n = Pattern::Cons(name.clone(), Some(w));
                        proof {
                            lemma_pattern_view(&n);
                        }
                        Some(spanned(pattern.span, n))
                    },
                }
            },
        }
    }

    /// Rewrites an application.
    pub fn process_app(&self, term: &SpanTerm) -> (r: Option<SpanTerm>)
        requires
            term.content is App,
        ensures
            opt_node(r) == rz_term_app(self.arity(), term@),
        decreases term, 0nat,
    {
        proof {
            lemma_term_view(&term.content);
        }
        let span = term.span;
        let (f, x) = match &term.content {
            Term::App(f, x) => (f, x),
            _ => {
                return None;
            },
        };
        match &f.content {
            Term::NativeCons(name) => {
                let nullary = match look_up(name.as_str(), &self.context) {
                    Some(flag) => flag,
                    None => {
                        return None;
                    },
                };
                if !nullary {
                    return match self.process_term(x) {
                        Some(x2) => {
                            let n = Term::Cons { cons: name.clone(), body: x2 };
                            proof {
                                lemma_term_view(&n);
                            }
                            Some(spanned(span, n))
                        },
                        None => None,
                    };
                }
            },
            _ => {},
        }
        let f2 = match self.process_term(f) {
            Some(v) => v,
            None => {
                return None;
            },
        };
        let x2 = match self.process_term(x) {
            Some(v) => v,
            None => {
                return None;
            },
        };
        let n = Term::App(f2, x2);
        proof {
            lemma_term_view(&n);
        }
        Some(spanned(span, n))
    }

    /// Rewrites a term.
    pub fn process_term(&self, term: &SpanTerm) -> (r: Option<SpanTerm>)
        ensures
            opt_node(r) == rz_term(self.arity(), term@),
        decreases term, 1nat,
    {
        proof {
            lemma_term_view(&term.content);
        }
        match &term.content {
            Term::Int(_) | Term::Bool(_) | Term::Unit | Term::Var(_) => Some(share(term)),
            Term::If(a, b, d) => {
                let a2 = match self.process_term(a) {
                    Some(v) => v,
                    None => {
                        return None;
                    },
                };
                let b2 = match self.process_term(b) {
                    Some(v) => v,
                    None => {
                        return None;
                    },
                };
                let d2 = match self.process_term(d) {
                    Some(v) => v,
                    None => {
                        return None;
                    },
                };
                let n = Term::If(a2, b2, d2);
                proof {
                    lemma_term_view(&n);
                }
                Some(spanned(term.span, n))
            },
            Term::PrimOp { op, params } => {
                match self.process_terms(params) {
                    Some(ps) => {
                        let n = Term::PrimOp { op: op.clone(), params: ps };
                        proof {
                            lemma_term_view(&n);
                        }
                        Some(spanned(term.span, n))
                    },
                    None => None,
                }
            },
            Term::App(_, _) => self.process_app(term),
            Term::Func { params, body } => {
                match self.process_term(body) {
                    Some(b2) => {
                        let n = Term::Func { params: clone_names(params), body: b2 };
                        proof {
                            lemma_term_view(&n);
                        }
                        Some(spanned(term.span, n))
                    },
                    None => None,
                }
            },
            Term::Tuple(ts) => {
                match self.process_terms(ts) {
                    Some(ps) => {
                        let n = Term::Tuple(ps);
                        proof {
                            lemma_term_view(&n);
                        }
                        Some(spanned(term.span, n))
                    },
                    None => None,
                }
            },
            Term::Match { def, cases } => {
                let d2 = match self.process_term(def) {
                    Some(v) => v,
                    None => {
                        return None;
                    },
                };
                match self.process_cases(cases) {
                    Some(cs) => {
                        let n = Term::Match { def: d2, cases: cs };
                        proof {
                            lemma_term_view(&n);
                        }
                        Some(spanned(term.span, n))
                    },
                    None => None,
                }
            },
            Term::Let { bind, body } => {
                let b2 = match self.process_bind(bind) {
                    Some(v) => v,
                    None => {
                        return None;
                    },
                };
                let t2 = match self.process_term(body) {
                    Some(v) => v,
                    None => {
                        return None;
                    },
                };
                let n = Term::Let { bind: b2, body: t2 };
                proof {
                    lemma_term_view(&n);
                }
                Some(spanned(term.span, n))
            },
            Term::Cons { cons, body } => {
                match self.process_term(body) {
                    Some(b2) => {
                        let n = Term::Cons { cons: cons.clone(), body: b2 };
                        proof {
                            lemma_term_view(&n);
                        }
                        Some(spanned(term.span, n))
                    },
                    None => None,
                }
            },
            Term::NativeCons(name) => {
                match look_up(name.as_str(), &self.context) {
                    None => None,
                    Some(nullary) => {
                        if nullary {
                            let unit = spanned(term.span, Term::Unit);
                            let n = Term::Cons { cons: name.clone(), body: unit };
                            proof {
                                lemma_term_view(&n);
                            }
                            Some(spanned(term.span, n))
                        } else {
                            Some(share(term))
                        }
                    },
                }
            },
        }
    }

    /// Rewrites every term of a list; `None` where one of them is refused.
    #[verifier::loop_isolation(false)]
    pub fn process_terms(&self, ts: &Vec<SpanTerm>) -> (r: Option<Vec<SpanTerm>>)
        ensures
            match r {
                Some(v) => all_some(rz_terms(self.arity(), nodes_view(ts@))) && nodes_view(v@) == unwrap_all(
                    rz_terms(self.arity(), nodes_view(ts@)),
                ),
                None => !all_some(rz_terms(self.arity(), nodes_view(ts@))),
            },
        decreases ts, 1nat,
    {
        let ghost rs = rz_terms(self.arity(), nodes_view(ts@));
        let mut out: Vec<SpanTerm> = Vec::new();
        let mut i: usize = 0;
        while i < ts.len()
            invariant
                i <= ts@.len(),
                out@.len() == i,
                forall|j: int| 0 <= j < i ==> (#[trigger] rs[j]) == Some(out@[j]@),
            decreases ts@.len() - i,
        {
            match self.process_term(&ts[i]) {
                Some(v) => {
                    out.push(v);
                },
                None => {
                    assert(rs[i as int] is None);
                    return None;
                },
            }
            i = i + 1;
        }
        assert(nodes_view(out@) =~= unwrap_all(rs));
        Some(out)
    }

    /// Rewrites the pattern and the branch of every case of a list; `None`
    /// where one of them is refused.
    #[verifier::loop_isolation(false)]
    pub fn process_cases(&self, cases: &Vec<(SpanPattern, SpanTerm)>) -> (r: Option<
        Vec<(SpanPattern, SpanTerm)>,
    >)
        ensures
            match r {
                Some(v) => all_some(rz_term_cases(self.arity(), cases_view(cases@))) && cases_view(v@)
                    == unwrap_all(rz_term_cases(self.arity(), cases_view(cases@))),
                None => !all_some(rz_term_cases(self.arity(), cases_view(cases@))),
            },
        decreases cases, 1nat,
    {
        let ghost rs = rz_term_cases(self.arity(), cases_view(cases@));
        let mut out: Vec<(SpanPattern, SpanTerm)> = Vec::new();
        let mut i: usize = 0;
        while i < cases.len()
            invariant
                i <= cases@.len(),
                out@.len() == i,
                forall|j: int| 0 <= j < i ==> (#[trigger] rs[j]) == Some((out@[j].0@, out@[j].1@)),
            decreases cases@.len() - i,
        {
            let pat = match self.process_pattern(&cases[i].0) {
                Some(v) => v,
                None => {
                    assert(rs[i as int] is None);
                    return None;
                },
            };
            let t2 = match self.process_term(&cases[i].1) {
                Some(v) => v,
                None => {
                    assert(rs[i as int] is None);
                    return None;
                },
            };
            out.push((pat, t2));
            i = i + 1;
        }
        assert(cases_view(out@) =~= unwrap_all(rs));
        Some(out)
    }

    /// Rewrites the definition of a binding.
    pub fn process_bind(&self, bind: &SpanBind) -> (r: Option<SpanBind>)
        ensures
            opt_node(r) == rz_bind(self.arity(), bind@),
        decreases bind, 0nat,
    {
        proof {
            lemma_bind_view(&bind.content);
        }
        let body = match &bind.content.bind {
            BindTerm::NormalBind(d) => match self.process_term(d) {
                Some(d2) => BindTerm::NormalBind(d2),
                None => {
                    return None;
                },
            },
            BindTerm::FuncBind(cases) => match self.process_cases(cases) {
                Some(cs) => BindTerm::FuncBind(cs),
                None => {
                    return None;
                },
            },
        };
        Some(spanned(bind.span, bind.content.clone_with_new_bind(body)))
    }

    /// Returns a type as it is: the pass changes no type but the schemes of
    /// constructors.
    pub fn process_type(&self, ty: &SpanType) -> (r: SpanType)
        ensures
            r@ == ty@,
    {
        share(ty)
    }

    /// Rewrites a command, and records the constructors of a type
    /// definition in the context. Where the command is refused the context
    /// stays as it was.
    #[verifier::loop_isolation(false)]
    pub fn process_command(&mut self, command: &Command) -> (r: Option<Command>)
        ensures
            match r {
                Some(c) => rz_command(old(self).arity(), command@) == Some(c@),
                None => rz_command(old(self).arity(), command@) is None,
            },
            final(self).arity() == if r is Some {
                rz_after(old(self).arity(), command@)
            } else {
                old(self).arity()
            },
    {
        match command {
            Command::TypeDef { name, cons_list, arity } => {
                let mut out: Vec<(String, SpanType)> = Vec::new();
                let mut i: usize = 0;
                let ghost ds = cons_list_view(cons_list@);
                let ghost c0 = self.arity();
                assert(ds.take(0) =~= Seq::empty());
                while i < cons_list.len()
                    invariant
                        i <= cons_list@.len(),
                        ds == cons_list_view(cons_list@),
                        out@.len() == i,
                        self.arity() == rz_bindings(ds.take(i as int), c0),
                        forall|j: int|
                            0 <= j < i ==> ((#[trigger] out@[j]).0@, out@[j].1@) == rz_cons(ds[j]).0,
                    decreases cons_list@.len() - i,
                {
                    let (vars, body) = unfold_cons_type(&cons_list[i].1);
                    proof {
                        lemma_type_view(&body.content);
                        assert(ds.take(i + 1).drop_last() =~= ds.take(i as int));
                        assert(ds.take(i + 1).last() == ds[i as int]);
                    }
                    let is_arrow = match &body.content {
                        Type::Arr(_, _) => true,
                        _ => false,
                    };
                    if is_arrow {
                        self.context = bind_into(
                            cons_list[i].0.clone(),
                            false,
                            share(&self.context),
                        );
                        out.push((cons_list[i].0.clone(), share(&cons_list[i].1)));
                    } else {
                        self.context = bind_into(cons_list[i].0.clone(), true, share(&self.context));
                        let span = cons_list[i].1.span;
                        let unit = spanned(span, Type::Unit);
                        let arr = Type::Arr(unit, body);
                        proof {
                            lemma_type_view(&arr);
                        }
                        let scheme = build_cons_type(vars, spanned(span, arr));
                        out.push((cons_list[i].0.clone(), scheme));
                    }
                    i = i + 1;
                }
                assert(ds.take(cons_list@.len() as int) =~= ds);
                assert(cons_list_view(out@) =~= Seq::new(ds.len(), |i: int| rz_cons(ds[i]).0));
                Some(Command::TypeDef { name: name.clone(), cons_list: out, arity: *arity })
            },
            Command::TermEval(t) => match self.process_term(t) {
                Some(t2) => Some(Command::TermEval(t2)),
                None => None,
            },
            Command::TermDef(b) => match self.process_bind(b) {
                Some(b2) => Some(Command::TermDef(b2)),
                None => None,
            },
            Command::Config { name, val } => Some(
                Command::Config { name: name.clone(), val: clone_config(val) },
            ),
            Command::TypeAlias { name, def } => Some(
                Command::TypeAlias { name: name.clone(), def: self.process_type(def) },
            ),
            Command::TypeDeclare { name, ty } => Some(
                Command::TypeDeclare { name: name.clone(), ty: self.process_type(ty) },
            ),
        }
    }

    /// Rewrites the commands of a program from top to bottom. Where a
    /// command is refused the result is `None` and the context is as it
    /// was before the call.
    #[verifier::loop_isolation(false)]
    pub fn process_program(&mut self, program: &Vec<DecoratedCommand>) -> (r: Option<
        Vec<DecoratedCommand>,
    >)
        ensures
            match r {
                Some(p) => remove_zero_arity(old(self).arity(), program_view(program@)) == Some(
                    program_view(p@),
                ),
                None => remove_zero_arity(old(self).arity(), program_view(program@)) is None,
            },
            final(self).arity() == if r is Some {
                rz_context(old(self).arity(), program_view(program@))
            } else {
                old(self).arity()
            },
    {
        let saved = share(&self.context);
        let ghost c0 = self.arity();
        let ghost pm = program_view(program@);
        let ghost rs = rz_commands(c0, pm);
        let mut out: Vec<DecoratedCommand> = Vec::new();
        let mut i: usize = 0;
        assert(pm.take(0) =~= Seq::empty());
        while i < program.len()
            invariant
                i <= program@.len(),
                pm == program_view(program@),
                rs == rz_commands(c0, pm),
                entries(&saved) == c0,
                out@.len() == i,
                self.arity() == rz_context(c0, pm.take(i as int)),
                forall|j: int| 0 <= j < i ==> (#[trigger] rs[j]) == Some(out@[j]@),
            decreases program@.len() - i,
        {
            proof {
                assert(pm.take(i + 1).drop_last() =~= pm.take(i as int));
                assert(pm.take(i + 1).last() == pm[i as int]);
            }
            match self.process_command(&program[i].command.content) {
                Some(c) => {
                    out.push(
                        DecoratedCommand {
                            command: spanned(program[i].command.span, c),
                            decos: clone_names(&program[i].decos),
                        },
                    );
                },
                None => {
                    assert(rs[i as int] is None);
                    self.context = saved;
                    return None;
                },
            }
            i = i + 1;
        }
        assert(pm.take(program@.len() as int) =~= pm);
        assert(program_view(out@) =~= unwrap_all(rs));
        Some(out)
    }
}

/// A copy of a configuration value.
pub fn clone_config(val: &crate::language::ConfigVal) -> (r: crate::language::ConfigVal)
    ensures
        r@ == val@,
{
    match val {
        crate::language::ConfigVal::Int(i) => crate::language::ConfigVal::Int(*i),
        crate::language::ConfigVal::Bool(b) => crate::language::ConfigVal::Bool(*b),
        crate::language::ConfigVal::String(s) => crate::language::ConfigVal::String(s.clone()),
    }
}

/// Takes the payload `unit` away again.
pub struct AddZeroArity {
    pub context: Context<bool>,
}

impl Default for AddZeroArity {
    fn default() -> (r: Self)
        ensures
            r.arity() == Seq::<(Seq<char>, bool)>::empty(),
    {
        AddZeroArity { context: empty_context() }
    }
}

impl AddZeroArity {
    /// The constructors seen so far.
    pub open spec fn arity(&self) -> Arity {
        entries(&self.context)
    }

    /// Rewrites a pattern.
    #[verifier::loop_isolation(false)]
    pub fn process_pattern(&self, pattern: &SpanPattern) -> (r: Option<SpanPattern>)
        ensures
            opt_node(r) == az_pattern(self.arity(), pattern@),
        decreases pattern, 0nat,
    {
        proof {
            lemma_pattern_view(&pattern.content);
        }
        match &pattern.content {
            Pattern::Wildcard => Some(share(pattern)),
            Pattern::Var(inner, name) => match inner {
                Some(q) => match self.process_pattern(q) {
                    Some(q2) => {
                        let n = Pattern::Var(Some(q2), name.clone());
                        proof {
                            lemma_pattern_view(&n);
                        }
                        Some(spanned(pattern.span, n))
                    },
                    None => None,
                },
                None => Some(share(pattern)),
            },
            Pattern::Tuple(ps) => {
                let ghost rs = az_patterns(self.arity(), nodes_view(ps@));
                let mut out: Vec<SpanPattern> = Vec::new();
                let mut i: usize = 0;
                while i < ps.len()
                    invariant
                        i <= ps@.len(),
                        out@.len() == i,
                        forall|j: int| 0 <= j < i ==> (#[trigger] rs[j]) == Some(out@[j]@),
                    decreases ps@.len() - i,
                {
                    match self.process_pattern(&ps[i]) {
                        Some(v) => {
                            out.push(v);
                        },
                        None => {
                            assert(rs[i as int] is None);
                            return None;
                        },
                    }
                    i = i + 1;
                }
                assert(nodes_view(out@) =~= unwrap_all(rs));
                let n = Pattern::Tuple(out);
                proof {
                    lemma_pattern_view(&n);
                }
                Some(spanned(pattern.span, n))
            },
            Pattern::Cons(name, inner) => {
                let nullary = match look_up(name.as_str(), &self.context) {
                    Some(flag) => flag,
                    None => {
                        return None;
                    },
                };
                if nullary {
                    let n = Pattern::Cons(name.clone(), None);
                    proof {
                        lemma_pattern_view(&n);
                    }
                    return Some(spanned(pattern.span, n));
                }
                match inner {
                    Some(q) => match self.process_pattern(q) {
                        Some(q2) => {
                            let n = Pattern::Cons(name.clone(), Some(q2));
                            proof {
                                lemma_pattern_view(&n);
                            }
                            Some(spanned(pattern.span, n))
                        },
                        None => None,
                    },
                    None => Some(share(pattern)),
                }
            },
        }
    }

    /// Rewrites an application.
    pub fn process_app(&self, term: &SpanTerm) -> (r: Option<SpanTerm>)
        requires
            term.content is App,
        ensures
            opt_node(r) == az_term_app(self.arity(), term@),
        decreases term, 0nat,
    {
        proof {
            lemma_term_view(&term.content);
        }
        let span = term.span;
        let (f, x) = match &term.content {
            Term::App(f, x) => (f, x),
            _ => {
                return None;
            },
        };
        match &f.content {
            Term::NativeCons(name) => {
                let nullary = match look_up(name.as_str(), &self.context) {
                    Some(flag) => flag,
                    None => {
                        return None;
                    },
                };
                if nullary {
                    return match &x.content {
                        Term::Unit => Some(spanned(span, Term::NativeCons(name.clone()))),
                        _ => None,
                    };
                }
            },
            _ => {},
        }
        let f2 = match self.process_term(f) {
            Some(v) => v,
            None => {
                return None;
            },
        };
        let x2 = match self.process_term(x) {
            Some(v) => v,
            None => {
                return None;
            },
        };
        let n = Term::App(f2, x2);
        proof {
            lemma_term_view(&n);
        }
        Some(spanned(span, n))
    }

    /// Rewrites a term.
    pub fn process_term(&self, term: &SpanTerm) -> (r: Option<SpanTerm>)
        ensures
            opt_node(r) == az_term(self.arity(), term@),
        decreases term, 1nat,
    {
        proof {
            lemma_term_view(&term.content);
        }
        match &term.content {
            Term::Int(_) | Term::Bool(_) | Term::Unit | Term::Var(_) => Some(share(term)),
            Term::If(a, b, d) => {
                let a2 = match self.process_term(a) {
                    Some(v) => v,
                    None => {
                        return None;
                    },
                };
                let b2 = match self.process_term(b) {
                    Some(v) => v,
                    None => {
                        return None;
                    },
                };
                let d2 = match self.process_term(d) {
                    Some(v) => v,
                    None => {
                        return None;
                    },
                };
                let n = Term::If(a2, b2, d2);
                proof {
                    lemma_term_view(&n);
                }
                Some(spanned(term.span, n))
            },
            Term::PrimOp { op, params } => {
                match self.process_terms(params) {
                    Some(ps) => {
                        let n = Term::PrimOp { op: op.clone(), params: ps };
                        proof {
                            lemma_term_view(&n);
                        }
                        Some(spanned(term.span, n))
                    },
                    None => None,
                }
            },
            Term::App(_, _) => self.process_app(term),
            Term::Func { params, body } => {
                match self.process_term(body) {
                    Some(b2) => {
                        let n = Term::Func { params: clone_names(params), body: b2 };
                        proof {
                            lemma_term_view(&n);
                        }
                        Some(spanned(term.span, n))
                    },
                    None => None,
                }
            },
            Term::Tuple(ts) => {
                match self.process_terms(ts) {
                    Some(ps) => {
                        let n = Term::Tuple(ps);
                        proof {
                            lemma_term_view(&n);
                        }
                        Some(spanned(term.span, n))
                    },
                    None => None,
                }
            },
            Term::Match { def, cases } => {
                let d2 = match self.process_term(def) {
                    Some(v) => v,
                    None => {
                        return None;
                    },
                };
                match self.process_cases(cases) {
                    Some(cs) => {
                        let n = Term::Match { def: d2, cases: cs };
                        proof {
                            lemma_term_view(&n);
                        }
                        Some(spanned(term.span, n))
                    },
                    None => None,
                }
            },
            Term::Let { bind, body } => {
                let b2 = match self.process_bind(bind) {
                    Some(v) => v,
                    None => {
                        return None;
                    },
                };
                let t2 = match self.process_term(body) {
                    Some(v) => v,
                    None => {
                        return None;
                    },
                };
                let n = Term::Let { bind: b2, body: t2 };
                proof {
                    lemma_term_view(&n);
                }
                Some(spanned(term.span, n))
            },
            Term::Cons { cons, body } => {
                let nullary = match look_up(cons.as_str(), &self.context) {
                    Some(flag) => flag,
                    None => {
                        return None;
                    },
                };
                if nullary {
                    match &body.content {
                        Term::Unit => Some(spanned(term.span, Term::NativeCons(cons.clone()))),
                        _ => None,
                    }
                } else {
                    match self.process_term(body) {
                        Some(b2) => {
                            let n = Term::Cons { cons: cons.clone(), body: b2 };
                            proof {
                                lemma_term_view(&n);
                            }
                            Some(spanned(term.span, n))
                        },
                        None => None,
                    }
                }
            },
            Term::NativeCons(name) => {
                match look_up(name.as_str(), &self.context) {
                    None => None,
                    Some(nullary) => {
                        if nullary {
                            let mut params: Vec<String> = Vec::new();
                            params.push(String::from_str("tmp"));
                            assert(names_view(params@) =~= seq![dummy_name()]);
                            let n = Term::Func { params, body: share(term) };
                            proof {
                                lemma_term_view(&n);
                            }
                            Some(spanned(term.span, n))
                        } else {
                            Some(share(term))
                        }
                    },
                }
            },
        }
    }

    /// Rewrites every term of a list; `None` where one of them is refused.
    #[verifier::loop_isolation(false)]
    pub fn process_terms(&self, ts: &Vec<SpanTerm>) -> (r: Option<Vec<SpanTerm>>)
        ensures
            match r {
                Some(v) => all_some(az_terms(self.arity(), nodes_view(ts@))) && nodes_view(v@) == unwrap_all(
                    az_terms(self.arity(), nodes_view(ts@)),
                ),
                None => !all_some(az_terms(self.arity(), nodes_view(ts@))),
            },
        decreases ts, 1nat,
    {
        let ghost rs = az_terms(self.arity(), nodes_view(ts@));
        let mut out: Vec<SpanTerm> = Vec::new();
        let mut i: usize = 0;
        while i < ts.len()
            invariant
                i <= ts@.len(),
                out@.len() == i,
                forall|j: int| 0 <= j < i ==> (#[trigger] rs[j]) == Some(out@[j]@),
            decreases ts@.len() - i,
        {
            match self.process_term(&ts[i]) {
                Some(v) => {
                    out.push(v);
                },
                None => {
                    assert(rs[i as int] is None);
                    return None;
                },
            }
            i = i + 1;
        }
        assert(nodes_view(out@) =~= unwrap_all(rs));
        Some(out)
    }

    /// Rewrites the pattern and the branch of every case of a list; `None`
    /// where one of them is refused.
    #[verifier::loop_isolation(false)]
    pub fn process_cases(&self, cases: &Vec<(SpanPattern, SpanTerm)>) -> (r: Option<
        Vec<(SpanPattern, SpanTerm)>,
    >)
        ensures
            match r {
                Some(v) => all_some(az_term_cases(self.arity(), cases_view(cases@))) && cases_view(v@)
                    == unwrap_all(az_term_cases(self.arity(), cases_view(cases@))),
                None => !all_some(az_term_cases(self.arity(), cases_view(cases@))),
            },
        decreases cases, 1nat,
    {
        let ghost rs = az_term_cases(self.arity(), cases_view(cases@));
        let mut out: Vec<(SpanPattern, SpanTerm)> = Vec::new();
        let mut i: usize = 0;
        while i < cases.len()
            invariant
                i <= cases@.len(),
                out@.len() == i,
                forall|j: int| 0 <= j < i ==> (#[trigger] rs[j]) == Some((out@[j].0@, out@[j].1@)),
            decreases cases@.len() - i,
        {
            let pat = match self.process_pattern(&cases[i].0) {
                Some(v) => v,
                None => {
                    assert(rs[i as int] is None);
                    return None;
                },
            };
            let t2 = match self.process_term(&cases[i].1) {
                Some(v) => v,
                None => {
                    assert(rs[i as int] is None);
                    return None;
                },
            };
            out.push((pat, t2));
            i = i + 1;
        }
        assert(cases_view(out@) =~= unwrap_all(rs));
        Some(out)
    }

    /// Rewrites the definition of a binding.
    pub fn process_bind(&self, bind: &SpanBind) -> (r: Option<SpanBind>)
        ensures
            opt_node(r) == az_bind(self.arity(), bind@),
        decreases bind, 0nat,
    {
        proof {
            lemma_bind_view(&bind.content);
        }
        let body = match &bind.content.bind {
            BindTerm::NormalBind(d) => match self.process_term(d) {
                Some(d2) => BindTerm::NormalBind(d2),
                None => {
                    return None;
                },
            },
            BindTerm::FuncBind(cases) => match self.process_cases(cases) {
                Some(cs) => BindTerm::FuncBind(cs),
                None => {
                    return None;
                },
            },
        };
        Some(spanned(bind.span, bind.content.clone_with_new_bind(body)))
    }

    /// Returns a type as it is: the pass changes no type but the schemes of
    /// constructors.
    pub fn process_type(&self, ty: &SpanType) -> (r: SpanType)
        ensures
            r@ == ty@,
    {
        share(ty)
    }

    /// Rewrites a command, and records the constructors of a type
    /// definition in the context. Where the command is refused the context
    /// stays as it was.
    #[verifier::loop_isolation(false)]
    pub fn process_command(&mut self, command: &Command) -> (r: Option<Command>)
        ensures
            match r {
                Some(c) => az_command(old(self).arity(), command@) == Some(c@),
                None => az_command(old(self).arity(), command@) is None,
            },
            final(self).arity() == if r is Some {
                az_after(old(self).arity(), command@)
            } else {
                old(self).arity()
            },
    {
        match command {
            Command::TypeDef { name, cons_list, arity } => {
                let mut out: Vec<(String, SpanType)> = Vec::new();
                let mut context = share(&self.context);
                let mut i: usize = 0;
                let ghost ds = cons_list_view(cons_list@);
                let ghost c0 = self.arity();
                assert(ds.take(0) =~= Seq::empty());
                while i < cons_list.len()
                    invariant
                        i <= cons_list@.len(),
                        ds == cons_list_view(cons_list@),
                        out@.len() == i,
                        self.arity() == c0,
                        entries(&context) == az_bindings(ds.take(i as int), c0),
                        forall|j: int| 0 <= j < i ==> (#[trigger] az_conses(ds)[j]) is Some,
                        forall|j: int|
                            0 <= j < i ==> ((#[trigger] out@[j]).0@, out@[j].1@) == az_cons(
                                ds[j],
                            ).unwrap().0,
                    decreases cons_list@.len() - i,
                {
                    let (vars, body) = unfold_cons_type(&cons_list[i].1);
                    proof {
                        lemma_type_view(&body.content);
                        assert(ds.take(i + 1).drop_last() =~= ds.take(i as int));
                        assert(ds.take(i + 1).last() == ds[i as int]);
                    }
                    match &body.content {
                        Type::Arr(payload, result) => {
                            let is_unit = match &payload.content {
                                Type::Unit => true,
                                _ => false,
                            };
                            if is_unit {
                                context = bind_into(cons_list[i].0.clone(), true, context);
                                let scheme = build_cons_type(vars, share(result));
                                out.push((cons_list[i].0.clone(), scheme));
                            } else {
                                context = bind_into(cons_list[i].0.clone(), false, context);
                                out.push((cons_list[i].0.clone(), share(&cons_list[i].1)));
                            }
                        },
                        _ => {
                            assert(az_conses(ds)[i as int] is None);
                            return None;
                        },
                    }
                    i = i + 1;
                }
                assert(ds.take(cons_list@.len() as int) =~= ds);
                assert(all_some(az_conses(ds)));
                assert(cons_list_view(out@) =~= Seq::new(
                    ds.len(),
                    |i: int| az_cons(ds[i]).unwrap().0,
                ));
                self.context = context;
                Some(Command::TypeDef { name: name.clone(), cons_list: out, arity: *arity })
            },
            Command::TermEval(t) => match self.process_term(t) {
                Some(t2) => Some(Command::TermEval(t2)),
                None => None,
            },
            Command::TermDef(b) => match self.process_bind(b) {
                Some(b2) => Some(Command::TermDef(b2)),
                None => None,
            },
            Command::Config { name, val } => Some(
                Command::Config { name: name.clone(), val: clone_config(val) },
            ),
            Command::TypeAlias { name, def } => Some(
                Command::TypeAlias { name: name.clone(), def: self.process_type(def) },
            ),
            Command::TypeDeclare { name, ty } => Some(
                Command::TypeDeclare { name: name.clone(), ty: self.process_type(ty) },
            ),
        }
    }

    /// Rewrites the commands of a program from top to bottom. Where a
    /// command is refused the result is `None` and the context is as it
    /// was before the call.
    #[verifier::loop_isolation(false)]
    pub fn process_program(&mut self, program: &Vec<DecoratedCommand>) -> (r: Option<
        Vec<DecoratedCommand>,
    >)
        ensures
            match r {
                Some(p) => add_zero_arity(old(self).arity(), program_view(program@)) == Some(
                    program_view(p@),
                ),
                None => add_zero_arity(old(self).arity(), program_view(program@)) is None,
            },
            final(self).arity() == if r is Some {
                az_context(old(self).arity(), program_view(program@))
            } else {
                old(self).arity()
            },
    {
        let saved = share(&self.context);
        let ghost c0 = self.arity();
        let ghost pm = program_view(program@);
        let ghost rs = az_commands(c0, pm);
        let mut out: Vec<DecoratedCommand> = Vec::new();
        let mut i: usize = 0;
        assert(pm.take(0) =~= Seq::empty());
        while i < program.len()
            invariant
                i <= program@.len(),
                pm == program_view(program@),
                rs == az_commands(c0, pm),
                entries(&saved) == c0,
                out@.len() == i,
                self.arity() == az_context(c0, pm.take(i as int)),
                forall|j: int| 0 <= j < i ==> (#[trigger] rs[j]) == Some(out@[j]@),
            decreases program@.len() - i,
        {
            proof {
                assert(pm.take(i + 1).drop_last() =~= pm.take(i as int));
                assert(pm.take(i + 1).last() == pm[i as int]);
            }
            match self.process_command(&program[i].command.content) {
                Some(c) => {
                    out.push(
                        DecoratedCommand {
                            command: spanned(program[i].command.span, c),
                            decos: clone_names(&program[i].decos),
                        },
                    );
                },
                None => {
                    assert(rs[i as int] is None);
                    self.context = saved;
                    return None;
                },
            }
            i = i + 1;
        }
        assert(pm.take(program@.len() as int) =~= pm);
        assert(program_view(out@) =~= unwrap_all(rs));
        Some(out)
    }
}

} // verus!
