//! From the internal form to the surface form and back.
//!
//! For a program as it is read from its encoding, so that every span is the
//! sentinel, going to the surface form and back gives the program itself,
//! where its constructors are used as the type definitions above them
//! declare them and its generated names are the ones that the way back
//! generates. Every program that the decoder reads has such spans.

use vstd::prelude::*;
use crate::language::{
    Span, WithSpan, PatternModel, SPattern, TypeModel, SType, TermModel, STerm, BindModel,
    BindTermModel, SBind, CaseSeq, CommandModel, ProgramModel, find_entry,
};
use crate::util::{fresh_name, free_vars_of};
use crate::serializer::deserializer::{node, sentinel};
use crate::serializer::round_trip::{
    bare_pattern, bare_patterns, bare_type, bare_term, bare_terms, bare_cases, bare_bind,
};
use crate::processor::processor::{Arity, all_some, unwrap_all, unfold_scheme, build_scheme};
use crate::processor::arity_processor::{
    rz_pattern, rz_patterns, rz_term, rz_terms, rz_term_app, rz_term_cases, rz_bind, rz_cons,
    rz_bindings, rz_command, rz_after, rz_context, rz_commands, remove_zero_arity, az_pattern,
    az_patterns, az_term, az_terms, az_term_app, az_term_cases, az_bind, az_cons, az_conses,
    az_bindings, az_command, az_after, az_context, az_commands,
};
use crate::processor::native_processor::{
    eta_name, fold_funcs, branches, rn_term, rn_terms, rn_cases, rn_bind, rn_command,
    remove_native, an_func, an_term, an_terms, an_cases, can_be_function, an_bind_peel, an_bind,
    an_command, an_commands, add_native,
};
use crate::processor::{
    to_internal, to_surface, internal_term, internal_terms, internal_cases, internal_bind,
};

verus! {

/// Whether every span of a term is the sentinel.
pub open spec fn flat_term(t: STerm) -> bool {
    t == node(bare_term(t.content))
}

/// Whether every span of a pattern is the sentinel.
pub open spec fn flat_pattern(p: SPattern) -> bool {
    p == node(bare_pattern(p.content))
}

/// Whether every span of a binding is the sentinel.
pub open spec fn flat_bind(b: SBind) -> bool {
    b == node(bare_bind(b.content))
}

/// Whether every span of a type is the sentinel.
pub open spec fn flat_type(t: SType) -> bool {
    t == node(bare_type(t.content))
}

/// Whether every span of the cases of a list is the sentinel.
pub open spec fn flat_cases(cases: CaseSeq) -> bool {
    cases == bare_cases(cases)
}

// ---------------------------------------------------------------------------
// Constructors as the context declares them
// ---------------------------------------------------------------------------

/// Whether the constructors of an internal pattern are in the context, and
/// the argument of each nullary one is `_`.
pub open spec fn pattern_declared(c: Arity, p: SPattern) -> bool
    decreases p,
{
    match p.content {
        PatternModel::Wildcard => true,
        PatternModel::Var(inner, _) => match inner {
            Some(q) => pattern_declared(c, *q),
            None => true,
        },
        PatternModel::Tuple(ps) => forall|i: int|
            0 <= i < ps.len() ==> pattern_declared(c, #[trigger] ps[i]),
        PatternModel::Cons(name, inner) => match (find_entry(c, name), inner) {
            (Some(nullary), Some(q)) => if nullary {
                q.content is Wildcard
            } else {
                pattern_declared(c, *q)
            },
            _ => false,
        },
    }
}

/// Whether the patterns of a case list are declared.
pub open spec fn patterns_declared(c: Arity, cases: CaseSeq) -> bool {
    forall|i: int| 0 <= i < cases.len() ==> pattern_declared(c, (#[trigger] cases[i]).0)
}

/// Whether the constructors of a term are in the context, each nullary one
/// is applied to `()`, each constructor name that stands as a value is not
/// nullary, and no constructor name is applied.
pub open spec fn declared(c: Arity, t: STerm) -> bool
    decreases t, 1nat,
{
    match t.content {
        TermModel::Int(_) | TermModel::Bool(_) | TermModel::Unit | TermModel::Var(_) => true,
        TermModel::NativeCons(name) => find_entry(c, name) == Some(false),
        TermModel::If(a, b, d) => declared(c, *a) && declared(c, *b) && declared(c, *d),
        TermModel::PrimOp { op, params } => all_declared(c, params),
        TermModel::App(f, x) => !(f.content is NativeCons) && declared(c, *f) && declared(c, *x),
        TermModel::Func { params, body } => declared(c, *body),
        TermModel::Tuple(ts) => all_declared(c, ts),
        TermModel::Match { def, cases } => declared(c, *def) && patterns_declared(c, cases)
            && branches_declared(c, cases),
        TermModel::Cons { cons, body } => match find_entry(c, cons) {
            Some(nullary) => if nullary {
                body.content is Unit
            } else {
                declared(c, *body)
            },
            None => false,
        },
        TermModel::Let { bind, body } => bind_declared(c, *bind) && declared(c, *body),
    }
}

/// Whether the constructors of every term of a list are declared.
pub open spec fn all_declared(c: Arity, ts: Seq<STerm>) -> bool
    decreases ts, 1nat,
{
    forall|i: int| 0 <= i < ts.len() ==> declared(c, #[trigger] ts[i])
}

/// Whether the constructors of every branch of a case list are declared.
pub open spec fn branches_declared(c: Arity, cases: CaseSeq) -> bool
    decreases cases, 1nat,
{
    forall|i: int| 0 <= i < cases.len() ==> declared(c, (#[trigger] cases[i]).1)
}

/// Whether the constructors of a binding are declared.
pub open spec fn bind_declared(c: Arity, b: SBind) -> bool
    decreases b, 0nat,
{
    match b.content.bind {
        BindTermModel::NormalBind(d) => declared(c, d),
        BindTermModel::FuncBind(cases) => patterns_declared(c, cases) && branches_declared(c, cases),
    }
}

// ---------------------------------------------------------------------------
// Taking the payload `unit` away and putting it back
// ---------------------------------------------------------------------------

/// `RemoverZeroArity` undoes `AddZeroArity` on a declared pattern.
pub proof fn lemma_arity_pattern(c: Arity, p: SPattern)
    requires
        flat_pattern(p),
        pattern_declared(c, p),
    ensures
        az_pattern(c, p) is Some,
        rz_pattern(c, az_pattern(c, p).unwrap()) == Some(p),
    decreases p,
{
    match p.content {
        PatternModel::Wildcard => {},
        PatternModel::Var(inner, name) => {
            match inner {
                Some(q) => {
                    lemma_arity_pattern(c, *q);
                },
                None => {},
            }
        },
        PatternModel::Tuple(ps) => {
            let rs = az_patterns(c, ps);
            assert forall|i: int| 0 <= i < ps.len() implies (#[trigger] rs[i]) is Some && rz_pattern(
                c,
                rs[i].unwrap(),
            ) == Some(ps[i]) by {
                assert(ps[i] == bare_patterns(ps)[i]);
                lemma_arity_pattern(c, ps[i]);
            }
            let mid = unwrap_all(rs);
            assert(rz_patterns(c, mid) =~= Seq::new(ps.len(), |i: int| Some(ps[i])));
            assert(unwrap_all(rz_patterns(c, mid)) =~= ps);
        },
        PatternModel::Cons(name, inner) => {
            let q = inner.unwrap();
            if find_entry(c, name) == Some(false) {
                lemma_arity_pattern(c, *q);
            }
        },
    }
}

/// `RemoverZeroArity` undoes `AddZeroArity` on the declared patterns and
/// branches of a case list.
pub proof fn lemma_arity_cases(c: Arity, cases: CaseSeq)
    requires
        flat_cases(cases),
        patterns_declared(c, cases),
        branches_declared(c, cases),
    ensures
        all_some(az_term_cases(c, cases)),
        all_some(rz_term_cases(c, unwrap_all(az_term_cases(c, cases)))),
        unwrap_all(rz_term_cases(c, unwrap_all(az_term_cases(c, cases)))) == cases,
    decreases cases, 1nat,
{
    let rs = az_term_cases(c, cases);
    assert forall|i: int| 0 <= i < cases.len() implies (#[trigger] rs[i]) is Some && rz_pattern(
        c,
        rs[i].unwrap().0,
    ) == Some(cases[i].0) && rz_term(c, rs[i].unwrap().1) == Some(cases[i].1) by {
        assert(cases[i] == bare_cases(cases)[i]);
        lemma_arity_pattern(c, cases[i].0);
        lemma_arity_term(c, cases[i].1);
    }
    let mid = unwrap_all(rs);
    let back = rz_term_cases(c, mid);
    assert forall|i: int| 0 <= i < cases.len() implies (#[trigger] back[i]) == Some(cases[i]) by {
        assert(rs[i] is Some);
    }
    assert(unwrap_all(back) =~= cases);
}

/// `RemoverZeroArity` undoes `AddZeroArity` on the declared terms of a
/// list.
pub proof fn lemma_arity_terms(c: Arity, ts: Seq<STerm>)
    requires
        ts == bare_terms(ts),
        all_declared(c, ts),
    ensures
        all_some(az_terms(c, ts)),
        all_some(rz_terms(c, unwrap_all(az_terms(c, ts)))),
        unwrap_all(rz_terms(c, unwrap_all(az_terms(c, ts)))) == ts,
    decreases ts, 1nat,
{
    let rs = az_terms(c, ts);
    assert forall|i: int| 0 <= i < ts.len() implies (#[trigger] rs[i]) is Some && rz_term(
        c,
        rs[i].unwrap(),
    ) == Some(ts[i]) by {
        assert(ts[i] == bare_terms(ts)[i]);
        lemma_arity_term(c, ts[i]);
    }
    let mid = unwrap_all(rs);
    let back = rz_terms(c, mid);
    assert forall|i: int| 0 <= i < ts.len() implies (#[trigger] back[i]) == Some(ts[i]) by {
        assert(rs[i] is Some);
    }
    assert(unwrap_all(back) =~= ts);
}

/// `RemoverZeroArity` undoes `AddZeroArity` on a declared binding.
pub proof fn lemma_arity_bind(c: Arity, b: SBind)
    requires
        flat_bind(b),
        bind_declared(c, b),
    ensures
        az_bind(c, b) is Some,
        rz_bind(c, az_bind(c, b).unwrap()) == Some(b),
    decreases b, 0nat,
{
    match b.content.bind {
        BindTermModel::NormalBind(d) => {
            lemma_arity_term(c, d);
        },
        BindTermModel::FuncBind(cases) => {
            lemma_arity_cases(c, cases);
        },
    }
}

/// `RemoverZeroArity` undoes `AddZeroArity` on a declared term.
#[verifier::rlimit(60)]
pub proof fn lemma_arity_term(c: Arity, t: STerm)
    requires
        flat_term(t),
        declared(c, t),
    ensures
        az_term(c, t) is Some,
        rz_term(c, az_term(c, t).unwrap()) == Some(t),
    decreases t, 1nat,
{
    reveal_with_fuel(az_term, 2);
    reveal_with_fuel(az_term_app, 2);
    reveal_with_fuel(rz_term, 2);
    reveal_with_fuel(rz_term_app, 2);
    match t.content {
        TermModel::If(a, b, d) => {
            lemma_arity_term(c, *a);
            lemma_arity_term(c, *b);
            lemma_arity_term(c, *d);
        },
        TermModel::PrimOp { op, params } => {
            lemma_arity_terms(c, params);
        },
        TermModel::App(f, x) => {
            lemma_arity_term(c, *f);
            lemma_arity_term(c, *x);
            let f2 = az_term(c, *f).unwrap();
            let x2 = az_term(c, *x).unwrap();
            assert(az_term(c, t) == Some(
                WithSpan { span: t.span, content: TermModel::App(Box::new(f2), Box::new(x2)) },
            ));
            if f2.content is NativeCons {
                assert(f.content is Cons);
                assert(find_entry(c, f2.content->NativeCons_0) == Some(true));
            }
        },
        TermModel::Func { params, body } => {
            lemma_arity_term(c, *body);
        },
        TermModel::Tuple(ts) => {
            lemma_arity_terms(c, ts);
        },
        TermModel::Match { def, cases } => {
            lemma_arity_term(c, *def);
            lemma_arity_cases(c, cases);
        },
        TermModel::Cons { cons, body } => {
            if find_entry(c, cons) == Some(false) {
                lemma_arity_term(c, *body);
            }
        },
        TermModel::Let { bind, body } => {
            lemma_arity_bind(c, *bind);
            lemma_arity_term(c, *body);
        },
        _ => {},
    }
}

// ---------------------------------------------------------------------------
// Generated names
// ---------------------------------------------------------------------------

/// Whether the generated names of a term are the ones that the way back
/// generates: a function that applies a constructor to its parameter has
/// the parameter `tmp`.
pub open spec fn names_kept(t: STerm) -> bool
    decreases t, 1nat,
{
    match t.content {
        TermModel::If(a, b, d) => names_kept(*a) && names_kept(*b) && names_kept(*d),
        TermModel::PrimOp { op, params } => all_names_kept(params),
        TermModel::App(f, x) => names_kept(*f) && names_kept(*x),
        TermModel::Func { params, body } => names_kept(*body) && (match body.content {
            TermModel::Cons { cons, body: arg } => params.len() > 0 && arg.content
                == TermModel::Var(params.last()) ==> params.last() == eta_name(),
            _ => true,
        }),
        TermModel::Tuple(ts) => all_names_kept(ts),
        TermModel::Match { def, cases } => names_kept(*def) && cases_names_kept(cases),
        TermModel::Cons { cons, body } => names_kept(*body),
        TermModel::Let { bind, body } => bind_names_kept(*bind) && names_kept(*body),
        _ => true,
    }
}

/// Whether the generated names of every term of a list are kept.
pub open spec fn all_names_kept(ts: Seq<STerm>) -> bool
    decreases ts, 1nat,
{
    forall|i: int| 0 <= i < ts.len() ==> names_kept(#[trigger] ts[i])
}

/// Whether the generated names of every branch of a case list are kept.
pub open spec fn cases_names_kept(cases: CaseSeq) -> bool
    decreases cases, 1nat,
{
    forall|i: int| 0 <= i < cases.len() ==> names_kept((#[trigger] cases[i]).1)
}

/// Whether the generated names of the definition of a binding are kept,
/// where `last` is the parameter of the function directly around `term`:
/// a match on that parameter that the surface form writes as a `function`
/// binding has as the parameter the name that the way back generates.
pub open spec fn peel_names_kept(last: Option<Seq<char>>, term: STerm) -> bool
    decreases term, 2nat,
{
    match term.content {
        TermModel::Func { params, body } => if params.len() > 0 {
            peel_names_kept(Some(params.last()), *body)
        } else {
            peel_names_kept(last, *body)
        },
        TermModel::Match { def, cases } => names_kept(term) && (match last {
            Some(l) => def.content == TermModel::Var(l) && can_be_function(l, cases) ==> l
                == fresh_name(free_vars_of(branches(unwrap_all(an_cases(cases))))),
            None => true,
        }),
        _ => names_kept(term),
    }
}

/// Whether the generated names of a binding are kept.
pub open spec fn bind_names_kept(b: SBind) -> bool
    decreases b, 0nat,
{
    match b.content.bind {
        BindTermModel::NormalBind(d) => peel_names_kept(None, d),
        BindTermModel::FuncBind(cases) => cases_names_kept(cases),
    }
}

/// The parameter that stands last in a list, if there is one.
pub open spec fn last_of(acc: Seq<Seq<char>>) -> Option<Seq<char>> {
    if acc.len() > 0 {
        Some(acc.last())
    } else {
        None
    }
}

/// Functions of one parameter around a function of one parameter.
pub proof fn lemma_fold_push(acc: Seq<Seq<char>>, x: Seq<char>, body: STerm, span: Span)
    ensures
        fold_funcs(acc.push(x), body, span) == fold_funcs(
            acc,
            WithSpan {
                span,
                content: TermModel::Func { params: seq![x], body: Box::new(body) },
            },
            span,
        ),
{
    assert(acc.push(x).drop_last() =~= acc);
}

/// `RemoveNative` undoes `AddNative` on the terms of a list.
pub proof fn lemma_native_terms(ts: Seq<STerm>)
    requires
        ts == bare_terms(ts),
        internal_terms(ts),
        all_names_kept(ts),
    ensures
        all_some(an_terms(ts)),
        rn_terms(unwrap_all(an_terms(ts))) == ts,
        forall|i: int| 0 <= i < ts.len() ==> (#[trigger] an_terms(ts)[i]).unwrap().span == sentinel(),
    decreases ts, 1nat,
{
    assert forall|i: int| 0 <= i < ts.len() implies (#[trigger] an_terms(ts)[i]) is Some && rn_term(
        an_terms(ts)[i].unwrap(),
    ) == ts[i] && an_terms(ts)[i].unwrap().span == sentinel() by {
        assert(ts[i] == bare_terms(ts)[i]);
        lemma_native_term(ts[i]);
    }
    assert(rn_terms(unwrap_all(an_terms(ts))) =~= ts);
}

/// `RemoveNative` undoes `AddNative` on the branches of a case list.
pub proof fn lemma_native_cases(cases: CaseSeq)
    requires
        flat_cases(cases),
        internal_cases(cases),
        cases_names_kept(cases),
    ensures
        all_some(an_cases(cases)),
        rn_cases(unwrap_all(an_cases(cases))) == cases,
    decreases cases, 1nat,
{
    assert forall|i: int| 0 <= i < cases.len() implies (#[trigger] an_cases(cases)[i]) is Some
        && rn_term(an_cases(cases)[i].unwrap().1) == cases[i].1 && an_cases(cases)[i].unwrap().0
        == cases[i].0 by {
        assert(cases[i] == bare_cases(cases)[i]);
        lemma_native_term(cases[i].1);
    }
    assert(rn_cases(unwrap_all(an_cases(cases))) =~= cases);
}

/// `RemoveNative` turns the function that `AddNative` makes of the
/// parameters `acc` and a body back into the functions of one parameter
/// around the body.
pub proof fn lemma_native_func(acc: Seq<Seq<char>>, body: STerm)
    requires
        flat_term(body),
        internal_term(body),
        names_kept(body),
        match body.content {
            TermModel::Cons { cons, body: arg } => acc.len() > 0 && arg.content == TermModel::Var(
                acc.last(),
            ) ==> acc.last() == eta_name(),
            _ => true,
        },
    ensures
        an_func(sentinel(), acc, body) is Some,
        rn_term(an_func(sentinel(), acc, body).unwrap()) == fold_funcs(acc, body, sentinel()),
        an_func(sentinel(), acc, body).unwrap().span == sentinel(),
    decreases body, 2nat,
{
    match body.content {
        TermModel::Func { params, body: inner } => {
            assert(params =~= seq![params[0]]);
            assert(params.last() == params[0]);
            lemma_native_func(acc + params, *inner);
            assert(acc + params =~= acc.push(params[0]));
            lemma_fold_push(acc, params[0], *inner, sentinel());
        },
        TermModel::Cons { cons, body: arg } => {
            if acc.len() > 0 && arg.content == TermModel::Var(acc.last()) {
                let short = acc.drop_last();
                let name = WithSpan { span: arg.span, content: TermModel::NativeCons(cons) };
                assert(rn_term(
                    WithSpan {
                        span: sentinel(),
                        content: TermModel::Func { params: short, body: Box::new(name) },
                    },
                ) == fold_funcs(short, rn_term(name), sentinel()));
                assert(acc =~= short.push(eta_name()));
                lemma_fold_push(short, eta_name(), body, sentinel());
            } else {
                lemma_native_term(body);
            }
        },
        _ => {
            lemma_native_term(body);
        },
    }
}

/// `RemoveNative` undoes `AddNative` on an internal term whose generated
/// names are kept.
#[verifier::rlimit(60)]
pub proof fn lemma_native_term(t: STerm)
    requires
        flat_term(t),
        internal_term(t),
        names_kept(t),
    ensures
        an_term(t) is Some,
        rn_term(an_term(t).unwrap()) == t,
        an_term(t).unwrap().span == sentinel(),
    decreases t, 1nat,
{
    match t.content {
        TermModel::If(a, b, d) => {
            lemma_native_term(*a);
            lemma_native_term(*b);
            lemma_native_term(*d);
        },
        TermModel::PrimOp { op, params } => {
            lemma_native_terms(params);
        },
        TermModel::App(f, x) => {
            lemma_native_term(*f);
            lemma_native_term(*x);
            let f2 = an_term(*f).unwrap();
            assert(!(f2.content is NativeCons)) by {
                reveal_with_fuel(an_term, 2);
                reveal_with_fuel(an_func, 2);
            }
        },
        TermModel::Func { params, body } => {
            assert(params =~= seq![params[0]]);
            lemma_native_func(params, *body);
            lemma_fold_push(Seq::empty(), params[0], *body, sentinel());
            assert(Seq::<Seq<char>>::empty().push(params[0]) =~= params);
        },
        TermModel::Tuple(ts) => {
            lemma_native_terms(ts);
        },
        TermModel::Match { def, cases } => {
            lemma_native_term(*def);
            lemma_native_cases(cases);
        },
        TermModel::Cons { cons, body } => {
            lemma_native_term(*body);
        },
        TermModel::Let { bind, body } => {
            lemma_native_bind(*bind);
            lemma_native_term(*body);
        },
        _ => {},
    }
}

/// The plain binding without parameters of `term` that has the head of `b`.
pub open spec fn plain_of(b: SBind, term: STerm) -> SBind {
    WithSpan {
        span: b.span,
        content: BindModel {
            bind: BindTermModel::NormalBind(term),
            name: b.content.name,
            params: Seq::empty(),
            is_rec: b.content.is_rec,
        },
    }
}

/// `RemoveNative` turns the binding that `AddNative` makes of the
/// parameters `acc` and a term back into the plain binding of the
/// functions of one parameter around the term.
pub proof fn lemma_native_peel(b: SBind, acc: Seq<Seq<char>>, term: STerm)
    requires
        b.span == sentinel(),
        flat_term(term),
        internal_term(term),
        peel_names_kept(last_of(acc), term),
    ensures
        an_bind_peel(b, acc, term) is Some,
        rn_bind(an_bind_peel(b, acc, term).unwrap()) == plain_of(
            b,
            fold_funcs(acc, term, sentinel()),
        ),
    decreases term, 3nat,
{
    match term.content {
        TermModel::Func { params, body } => {
            assert(params =~= seq![params[0]]);
            assert(params.last() == params[0]);
            assert(acc + params =~= acc.push(params[0]));
            assert(last_of(acc + params) == Some(params[0]));
            lemma_native_peel(b, acc + params, *body);
            lemma_fold_push(acc, params[0], *body, sentinel());
        },
        TermModel::Match { def, cases } => {
            reveal_with_fuel(names_kept, 2);
            reveal_with_fuel(internal_term, 2);
            reveal_with_fuel(peel_names_kept, 2);
            assert(names_kept(term));
            assert(cases_names_kept(cases));
            assert(internal_cases(cases));
            assert(flat_cases(cases));
            lemma_native_term(term);
            if acc.len() > 0 && def.content == TermModel::Var(acc.last()) && can_be_function(
                acc.last(),
                cases,
            ) {
                lemma_native_cases(cases);
                let surface = unwrap_all(an_cases(cases));
                let fresh = fresh_name(free_vars_of(branches(surface)));
                assert(fresh == acc.last());
                assert(acc.drop_last().push(fresh) =~= acc);
                let made = an_bind_peel(b, acc, term).unwrap();
                assert(made.content.bind == BindTermModel::FuncBind(surface));
                assert(rn_bind(made) == plain_of(
                    b,
                    fold_funcs(
                        made.content.params.push(fresh),
                        WithSpan {
                            span: b.span,
                            content: TermModel::Match {
                                def: Box::new(
                                    WithSpan { span: b.span, content: TermModel::Var(fresh) },
                                ),
                                cases: rn_cases(surface),
                            },
                        },
                        b.span,
                    ),
                ));
            }
        },
        _ => {
            lemma_native_term(term);
        },
    }
}

/// `RemoveNative` undoes `AddNative` on an internal binding whose
/// generated names are kept.
pub proof fn lemma_native_bind(b: SBind)
    requires
        flat_bind(b),
        internal_bind(b),
        bind_names_kept(b),
    ensures
        an_bind(b) is Some,
        rn_bind(an_bind(b).unwrap()) == b,
    decreases b, 0nat,
{
    let d = b.content.bind->NormalBind_0;
    assert(b.content.params =~= Seq::<Seq<char>>::empty());
    lemma_native_peel(b, b.content.params, d);
    assert(plain_of(b, d) == b);
}

// ---------------------------------------------------------------------------
// What `AddNative` makes of declared terms
// ---------------------------------------------------------------------------

/// What `AddNative` makes of the declared terms of a list is declared.
pub proof fn lemma_declared_terms(c: Arity, ts: Seq<STerm>)
    requires
        ts == bare_terms(ts),
        internal_terms(ts),
        all_declared(c, ts),
    ensures
        all_some(an_terms(ts)),
        unwrap_all(an_terms(ts)) == bare_terms(unwrap_all(an_terms(ts))),
        all_declared(c, unwrap_all(an_terms(ts))),
    decreases ts, 1nat,
{
    let out = unwrap_all(an_terms(ts));
    assert forall|i: int| 0 <= i < ts.len() implies (#[trigger] an_terms(ts)[i]) is Some
        && flat_term(an_terms(ts)[i].unwrap()) && declared(c, an_terms(ts)[i].unwrap()) by {
        assert(ts[i] == bare_terms(ts)[i]);
        lemma_declared_term(c, ts[i]);
    }
    assert forall|i: int| 0 <= i < out.len() implies declared(c, #[trigger] out[i]) by {
        assert(an_terms(ts)[i] is Some);
    }
    assert(out =~= bare_terms(out)) by {
        assert forall|i: int| 0 <= i < out.len() implies out[i] == bare_terms(out)[i] by {
            assert(an_terms(ts)[i] is Some);
        }
    }
}

/// What `AddNative` makes of the declared cases of a list is declared.
pub proof fn lemma_declared_cases(c: Arity, cases: CaseSeq)
    requires
        flat_cases(cases),
        internal_cases(cases),
        patterns_declared(c, cases),
        branches_declared(c, cases),
    ensures
        all_some(an_cases(cases)),
        flat_cases(unwrap_all(an_cases(cases))),
        patterns_declared(c, unwrap_all(an_cases(cases))),
        branches_declared(c, unwrap_all(an_cases(cases))),
    decreases cases, 1nat,
{
    let out = unwrap_all(an_cases(cases));
    assert forall|i: int| 0 <= i < cases.len() implies (#[trigger] an_cases(cases)[i]) is Some
        && flat_term(an_cases(cases)[i].unwrap().1) && declared(c, an_cases(cases)[i].unwrap().1)
        && an_cases(cases)[i].unwrap().0 == cases[i].0 && flat_pattern(cases[i].0) by {
        assert(cases[i] == bare_cases(cases)[i]);
        lemma_declared_term(c, cases[i].1);
    }
    assert forall|i: int| 0 <= i < out.len() implies declared(c, (#[trigger] out[i]).1)
        && pattern_declared(c, out[i].0) by {
        assert(an_cases(cases)[i] is Some);
    }
    assert(out =~= bare_cases(out)) by {
        assert forall|i: int| 0 <= i < out.len() implies out[i] == bare_cases(out)[i] by {
            assert(an_cases(cases)[i] is Some);
        }
    }
}

/// What `AddNative` makes of parameters and a declared body is declared.
pub proof fn lemma_declared_func(c: Arity, acc: Seq<Seq<char>>, body: STerm)
    requires
        flat_term(body),
        internal_term(body),
        declared(c, body),
    ensures
        an_func(sentinel(), acc, body) is Some,
        flat_term(an_func(sentinel(), acc, body).unwrap()),
        declared(c, an_func(sentinel(), acc, body).unwrap()),
    decreases body, 2nat,
{
    reveal_with_fuel(declared, 2);
    reveal_with_fuel(bare_term, 2);
    match body.content {
        TermModel::Func { params, body: inner } => {
            lemma_declared_func(c, acc + params, *inner);
        },
        TermModel::Cons { cons, body: arg } => {
            if acc.len() > 0 && arg.content == TermModel::Var(acc.last()) {
                assert(find_entry(c, cons) == Some(false));
                let name = WithSpan { span: arg.span, content: TermModel::NativeCons(cons) };
                assert(arg.span == sentinel());
                assert(flat_term(name));
                assert(declared(c, name));
            } else {
                lemma_declared_term(c, body);
                let made = an_term(body).unwrap();
                assert(an_func(sentinel(), acc, body) == Some(
                    WithSpan {
                        span: sentinel(),
                        content: TermModel::Func { params: acc, body: Box::new(made) },
                    },
                ));
            }
        },
        _ => {
            lemma_declared_term(c, body);
            let made = an_term(body).unwrap();
            assert(an_func(sentinel(), acc, body) == Some(
                WithSpan {
                    span: sentinel(),
                    content: TermModel::Func { params: acc, body: Box::new(made) },
                },
            ));
        },
    }
}

/// What `AddNative` makes of parameters and a body is a function.
pub proof fn lemma_func_is_func(span: Span, acc: Seq<Seq<char>>, body: STerm)
    ensures
        an_func(span, acc, body) matches Some(q) ==> q.content is Func,
    decreases body,
{
    match body.content {
        TermModel::Func { params, body: inner } => {
            lemma_func_is_func(span, acc + params, *inner);
        },
        _ => {},
    }
}

/// What `AddNative` makes of a term is a constructor name only where the
/// term is one.
pub proof fn lemma_name_from_name(t: STerm)
    ensures
        an_term(t) matches Some(q) ==> (q.content is NativeCons ==> t.content is NativeCons),
{
    match t.content {
        TermModel::Func { params, body } => {
            lemma_func_is_func(t.span, params, *body);
        },
        _ => {},
    }
}

/// What `AddNative` makes of a declared internal term is declared.
#[verifier::rlimit(60)]
pub proof fn lemma_declared_term(c: Arity, t: STerm)
    requires
        flat_term(t),
        internal_term(t),
        declared(c, t),
    ensures
        an_term(t) is Some,
        flat_term(an_term(t).unwrap()),
        declared(c, an_term(t).unwrap()),
    decreases t, 1nat,
{
    match t.content {
        TermModel::If(a, b, d) => {
            lemma_declared_term(c, *a);
            lemma_declared_term(c, *b);
            lemma_declared_term(c, *d);
        },
        TermModel::PrimOp { op, params } => {
            lemma_declared_terms(c, params);
        },
        TermModel::App(f, x) => {
            lemma_declared_term(c, *f);
            lemma_declared_term(c, *x);
            lemma_name_from_name(*f);
        },
        TermModel::Func { params, body } => {
            lemma_declared_func(c, params, *body);
        },
        TermModel::Tuple(ts) => {
            lemma_declared_terms(c, ts);
        },
        TermModel::Match { def, cases } => {
            lemma_declared_term(c, *def);
            lemma_declared_cases(c, cases);
        },
        TermModel::Cons { cons, body } => {
            lemma_declared_term(c, *body);
            if find_entry(c, cons) == Some(true) {
                assert(an_term(*body).unwrap().content is Unit) by {
                    reveal_with_fuel(an_term, 2);
                }
            }
        },
        TermModel::Let { bind, body } => {
            lemma_declared_bind(c, *bind);
            lemma_declared_term(c, *body);
        },
        _ => {},
    }
}

/// What `AddNative` makes of parameters and a declared definition is a
/// declared binding.
pub proof fn lemma_declared_peel(c: Arity, b: SBind, acc: Seq<Seq<char>>, term: STerm)
    requires
        b.span == sentinel(),
        flat_term(term),
        internal_term(term),
        declared(c, term),
    ensures
        an_bind_peel(b, acc, term) is Some,
        flat_bind(an_bind_peel(b, acc, term).unwrap()),
        bind_declared(c, an_bind_peel(b, acc, term).unwrap()),
    decreases term, 3nat,
{
    match term.content {
        TermModel::Func { params, body } => {
            lemma_declared_peel(c, b, acc + params, *body);
        },
        TermModel::Match { def, cases } => {
            reveal_with_fuel(internal_term, 2);
            reveal_with_fuel(declared, 2);
            lemma_declared_term(c, term);
            if acc.len() > 0 && def.content == TermModel::Var(acc.last()) && can_be_function(
                acc.last(),
                cases,
            ) {
                assert(flat_cases(cases));
                lemma_declared_cases(c, cases);
            }
        },
        _ => {
            lemma_declared_term(c, term);
        },
    }
}

/// What `AddNative` makes of a declared internal binding is declared.
pub proof fn lemma_declared_bind(c: Arity, b: SBind)
    requires
        flat_bind(b),
        internal_bind(b),
        bind_declared(c, b),
    ensures
        an_bind(b) is Some,
        flat_bind(an_bind(b).unwrap()),
        bind_declared(c, an_bind(b).unwrap()),
    decreases b, 0nat,
{
    let d = b.content.bind->NormalBind_0;
    lemma_declared_peel(c, b, b.content.params, d);
}

// ---------------------------------------------------------------------------
// Programs
// ---------------------------------------------------------------------------

/// Whether a constructor scheme is one of the internal form that the way
/// to the surface and back keeps: an arrow to a type that is neither an
/// arrow nor quantified, under a quantifier only where it has variables,
/// with every span the sentinel.
pub open spec fn scheme_kept(s: SType) -> bool {
    flat_type(s) && (s.content is Poly ==> unfold_scheme(s).0.len() > 0) && (match unfold_scheme(
        s,
    ).1.content {
        TypeModel::Arr(payload, result) => !(result.content is Arr) && !(result.content is Poly),
        _ => false,
    })
}

/// Whether a command is one that the way to the surface and back keeps, in
/// the context of the constructors declared above it.
pub open spec fn command_kept(c: Arity, command: CommandModel) -> bool {
    match command {
        CommandModel::TermEval(t) => flat_term(t) && internal_term(t) && declared(c, t)
            && names_kept(t),
        CommandModel::TermDef(b) => flat_bind(b) && internal_bind(b) && bind_declared(c, b)
            && bind_names_kept(b),
        CommandModel::TypeDef { name, cons_list, arity } => forall|i: int|
            0 <= i < cons_list.len() ==> scheme_kept((#[trigger] cons_list[i]).1),
        _ => true,
    }
}

/// Whether a program is one that the way to the surface and back keeps:
/// every span in its terms, bindings and constructor schemes is the
/// sentinel; its terms have the shape of the internal form; every
/// constructor is declared by a type definition above its use, with an
/// arrow as its scheme; a nullary constructor is applied to `()` and has
/// the pattern argument `_`; and the generated names are the ones that the
/// way back generates.
pub open spec fn program_kept(p: ProgramModel) -> bool {
    forall|i: int|
        0 <= i < p.len() ==> command_kept(
            az_context(Seq::empty(), p.take(i)),
            (#[trigger] p[i]).command.content,
        )
}

/// Taking the payload `unit` from a kept scheme and putting it back gives
/// the scheme, and both ways agree on whether the constructor is nullary.
pub proof fn lemma_scheme_back(d: (Seq<char>, SType))
    requires
        scheme_kept(d.1),
    ensures
        az_cons(d) is Some,
        rz_cons(az_cons(d).unwrap().0).0 == d,
        rz_cons(az_cons(d).unwrap().0).1 == az_cons(d).unwrap().1,
{
    reveal_with_fuel(bare_type, 4);
    let (vars, body) = unfold_scheme(d.1);
    let payload = body.content->Arr_0;
    let result = body.content->Arr_1;
    assert(body.span == sentinel());
    assert(payload.span == sentinel());
    assert(result.span == sentinel());
    if payload.content is Unit {
        let made = build_scheme(vars, *result);
        assert(made.span == sentinel());
        if vars.len() == 0 {
            assert(vars =~= Seq::empty());
            assert(made == *result);
            assert(unfold_scheme(made) == (Seq::<Seq<char>>::empty(), *result));
            assert(d.1 == body);
        } else {
            assert(unfold_scheme(made) == (vars, *result));
        }
        let unit = WithSpan { span: sentinel(), content: TypeModel::Unit };
        assert(*payload == unit);
        let arrow = WithSpan {
            span: sentinel(),
            content: TypeModel::Arr(Box::new(unit), Box::new(*result)),
        };
        assert(arrow == body);
        assert(rz_cons((d.0, made)).0 == (d.0, build_scheme(vars, arrow)));
        assert(build_scheme(vars, body) == d.1);
    } else {
        assert(az_cons(d) == Some((d, false)));
        assert(rz_cons(d) == (d, false));
    }
}

/// The contexts of both ways agree behind the constructors of a type
/// definition.
pub proof fn lemma_bindings_back(cons_list: Seq<(Seq<char>, SType)>, c: Arity)
    requires
        forall|i: int| 0 <= i < cons_list.len() ==> scheme_kept((#[trigger] cons_list[i]).1),
    ensures
        all_some(az_conses(cons_list)),
        rz_bindings(
            Seq::new(cons_list.len(), |i: int| az_cons(cons_list[i]).unwrap().0),
            c,
        ) == az_bindings(cons_list, c),
    decreases cons_list.len(),
{
    assert forall|i: int| 0 <= i < cons_list.len() implies (#[trigger] az_conses(cons_list)[i])
        is Some by {
        lemma_scheme_back(cons_list[i]);
    }
    if cons_list.len() > 0 {
        let made = Seq::new(cons_list.len(), |i: int| az_cons(cons_list[i]).unwrap().0);
        let shorter = cons_list.drop_last();
        lemma_bindings_back(shorter, c);
        assert(made.drop_last() =~= Seq::new(
            shorter.len(),
            |i: int| az_cons(shorter[i]).unwrap().0,
        ));
        lemma_scheme_back(cons_list.last());
    }
}

/// A kept command comes back from the surface form, and the contexts of
/// both ways agree behind it.
pub proof fn lemma_command_back(c: Arity, command: CommandModel)
    requires
        command_kept(c, command),
    ensures
        an_command(command) is Some,
        az_command(c, an_command(command).unwrap()) is Some,
        rz_command(c, az_command(c, an_command(command).unwrap()).unwrap()) == Some(
            an_command(command).unwrap(),
        ),
        rn_command(an_command(command).unwrap()) == command,
        az_after(c, an_command(command).unwrap()) == az_after(c, command),
        rz_after(c, az_command(c, an_command(command).unwrap()).unwrap()) == az_after(
            c,
            command,
        ),
{
    match command {
        CommandModel::TermEval(t) => {
            lemma_declared_term(c, t);
            lemma_native_term(t);
            lemma_arity_term(c, an_term(t).unwrap());
        },
        CommandModel::TermDef(b) => {
            lemma_declared_bind(c, b);
            lemma_native_bind(b);
            lemma_arity_bind(c, an_bind(b).unwrap());
        },
        CommandModel::TypeDef { name, cons_list, arity } => {
            lemma_bindings_back(cons_list, c);
            let made = Seq::new(cons_list.len(), |i: int| az_cons(cons_list[i]).unwrap().0);
            assert(Seq::new(made.len(), |i: int| rz_cons(made[i]).0) =~= cons_list) by {
                assert forall|i: int| 0 <= i < cons_list.len() implies rz_cons(made[i]).0
                    == cons_list[i] by {
                    lemma_scheme_back(cons_list[i]);
                }
            }
        },
        _ => {},
    }
}

/// `AddNative` accepts every command of a kept program and leaves the
/// type definitions as they are, so that the context behind the first `i`
/// commands is the same before and after it; and `AddZeroArity` accepts
/// the first `i` commands that `AddNative` gives.
#[verifier::rlimit(40)]
pub proof fn lemma_surface_defined(p: ProgramModel, i: int)
    requires
        program_kept(p),
        0 <= i <= p.len(),
    ensures
        all_some(an_commands(p)),
        az_context(Seq::empty(), unwrap_all(an_commands(p)).take(i)) == az_context(
            Seq::empty(),
            p.take(i),
        ),
        forall|k: int|
            0 <= k < i ==> (#[trigger] az_commands(Seq::empty(), unwrap_all(an_commands(p)))[k])
                is Some,
    decreases i,
{
    let q = unwrap_all(an_commands(p));
    assert forall|k: int| 0 <= k < p.len() implies (#[trigger] an_commands(p)[k]) is Some by {
        lemma_command_back(az_context(Seq::empty(), p.take(k)), p[k].command.content);
    }
    if i > 0 {
        lemma_surface_defined(p, i - 1);
        let c = az_context(Seq::empty(), p.take(i - 1));
        lemma_command_back(c, p[i - 1].command.content);
        assert(p.take(i).drop_last() =~= p.take(i - 1));
        assert(q.take(i).drop_last() =~= q.take(i - 1));
        assert(q.take(i).last() == q[i - 1]);
        assert(p.take(i).last() == p[i - 1]);
        assert(an_commands(p)[i - 1] is Some);
        assert(az_commands(Seq::empty(), q)[i - 1] is Some);
    } else {
        assert(p.take(0) =~= Seq::empty());
        assert(q.take(0) =~= Seq::empty());
    }
}

/// The context of the way back behind the first `i` commands of the
/// surface form of a kept program is the context of the way to the surface
/// behind the first `i` commands of the program.
pub proof fn lemma_contexts_back(p: ProgramModel, i: int)
    requires
        program_kept(p),
        0 <= i <= p.len(),
    ensures
        to_surface(p) is Some,
        to_surface(p).unwrap().len() == p.len(),
        rz_context(Seq::empty(), to_surface(p).unwrap().take(i)) == az_context(
            Seq::empty(),
            p.take(i),
        ),
    decreases i,
{
    lemma_surface_defined(p, p.len() as int);
    let q = unwrap_all(an_commands(p));
    let s = unwrap_all(az_commands(Seq::empty(), q));
    assert(add_native(p) == Some(q));
    assert(to_surface(p) == Some(s));
    if i > 0 {
        lemma_contexts_back(p, i - 1);
        lemma_surface_defined(p, i - 1);
        let c = az_context(Seq::empty(), p.take(i - 1));
        lemma_command_back(c, p[i - 1].command.content);
        assert(p.take(i).drop_last() =~= p.take(i - 1));
        assert(p.take(i).last() == p[i - 1]);
        assert(s.take(i).drop_last() =~= s.take(i - 1));
        assert(s.take(i).last() == s[i - 1]);
        assert(an_commands(p)[i - 1] is Some);
        assert(az_commands(Seq::empty(), q)[i - 1] is Some);
    } else {
        assert(p.take(0) =~= Seq::empty());
        assert(s.take(0) =~= Seq::empty());
    }
}

/// Going from the internal form to the surface form and back gives the
/// program itself, for every program that `program_kept` describes.
pub proof fn lemma_surface_and_back(p: ProgramModel)
    requires
        program_kept(p),
    ensures
        to_surface(p) is Some,
        to_internal(to_surface(p).unwrap()) == Some(p),
{
    lemma_surface_defined(p, p.len() as int);
    lemma_contexts_back(p, 0);
    let q = unwrap_all(an_commands(p));
    let s = unwrap_all(az_commands(Seq::empty(), q));
    assert(add_native(p) == Some(q));
    assert(to_surface(p) == Some(s));
    assert forall|i: int| 0 <= i < p.len() implies (#[trigger] rz_commands(Seq::empty(), s)[i])
        == Some(q[i]) by {
        lemma_contexts_back(p, i);
        lemma_surface_defined(p, i);
        let c = az_context(Seq::empty(), p.take(i));
        lemma_command_back(c, p[i].command.content);
        assert(an_commands(p)[i] is Some);
        assert(az_commands(Seq::empty(), q)[i] is Some);
    }
    assert(unwrap_all(rz_commands(Seq::empty(), s)) =~= q);
    assert(remove_zero_arity(Seq::empty(), s) == Some(q));
    assert(remove_native(q) =~= p) by {
        assert forall|i: int| 0 <= i < p.len() implies remove_native(q)[i] == p[i] by {
            lemma_command_back(az_context(Seq::empty(), p.take(i)), p[i].command.content);
            assert(an_commands(p)[i] is Some);
        }
    }
}

} // verus!
