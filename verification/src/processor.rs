//! The normalisation passes between the surface form and the internal form.
//!
//! Surface to internal is `RemoverZeroArity` followed by `RemoveNative`;
//! internal to surface is `AddNative` followed by `AddZeroArity`.

use vstd::prelude::*;
use crate::language::{
    DecoratedCommand, ProgramModel, program_view, STerm, SBind, TermModel, BindTermModel,
    CommandModel, CaseSeq,
};
use crate::processor::processor::unfold_scheme;
use crate::processor::arity_processor::{
    RemoverZeroArity, AddZeroArity, remove_zero_arity, add_zero_arity, rz_commands, rz_command,
    rz_cons, rz_context,
};
use crate::processor::native_processor::{
    RemoveNative, AddNative, remove_native, add_native, rn_term, rn_terms, rn_cases, rn_bind,
    fold_funcs,
};

pub mod processor;
pub mod arity_processor;
pub mod native_processor;
pub mod round_trip;
pub mod read_back;

verus! {

/// The internal form of a surface program; `None` where the program uses a
/// constructor that no type definition above the use declares, gives a
/// nullary constructor an argument in a pattern, or leaves the argument of
/// another constructor out of a pattern.
pub open spec fn to_internal(p: ProgramModel) -> Option<ProgramModel> {
    match remove_zero_arity(Seq::empty(), p) {
        Some(q) => Some(remove_native(q)),
        None => None,
    }
}

/// The surface form of an internal program; `None` where the program has a
/// `function` binding, uses a constructor that no type definition above the
/// use declares, declares a constructor whose scheme is no arrow, or
/// applies a nullary constructor to anything but `()`.
pub open spec fn to_surface(p: ProgramModel) -> Option<ProgramModel> {
    match add_native(p) {
        Some(q) => add_zero_arity(Seq::empty(), q),
        None => None,
    }
}

/// Whether a term has the shape of the internal form: every function has
/// exactly one parameter, no constructor name stands as a value, and every
/// binding is a plain one without parameters.
pub open spec fn internal_term(t: STerm) -> bool
    decreases t, 1nat,
{
    match t.content {
        TermModel::Int(_) | TermModel::Bool(_) | TermModel::Unit | TermModel::Var(_) => true,
        TermModel::NativeCons(_) => false,
        TermModel::If(a, b, d) => internal_term(*a) && internal_term(*b) && internal_term(*d),
        TermModel::PrimOp { op, params } => internal_terms(params),
        TermModel::App(f, x) => internal_term(*f) && internal_term(*x),
        TermModel::Func { params, body } => params.len() == 1 && internal_term(*body),
        TermModel::Tuple(ts) => internal_terms(ts),
        TermModel::Match { def, cases } => internal_term(*def) && internal_cases(cases),
        TermModel::Cons { cons, body } => internal_term(*body),
        TermModel::Let { bind, body } => internal_bind(*bind) && internal_term(*body),
    }
}

/// Whether every term of a list has the shape of the internal form.
pub open spec fn internal_terms(ts: Seq<STerm>) -> bool
    decreases ts, 1nat,
{
    forall|i: int| 0 <= i < ts.len() ==> internal_term(#[trigger] ts[i])
}

/// Whether every branch of a case list has the shape of the internal form.
pub open spec fn internal_cases(cases: CaseSeq) -> bool
    decreases cases, 1nat,
{
    forall|i: int| 0 <= i < cases.len() ==> internal_term((#[trigger] cases[i]).1)
}

/// Whether a binding has the shape of the internal form: a plain binding
/// without parameters of a term of that shape.
pub open spec fn internal_bind(b: SBind) -> bool
    decreases b, 0nat,
{
    b.content.params.len() == 0 && match b.content.bind {
        BindTermModel::NormalBind(d) => internal_term(d),
        BindTermModel::FuncBind(_) => false,
    }
}

/// Whether a command has the shape of the internal form: its term or
/// binding has, and the scheme of every constructor that it declares is an
/// arrow, under its quantifier where it has one.
pub open spec fn internal_command(c: CommandModel) -> bool {
    match c {
        CommandModel::TermEval(t) => internal_term(t),
        CommandModel::TermDef(b) => internal_bind(b),
        CommandModel::TypeDef { name, cons_list, arity } => forall|i: int|
            0 <= i < cons_list.len() ==> unfold_scheme((#[trigger] cons_list[i]).1).1.content is Arr,
        _ => true,
    }
}

/// Whether every command of a program has the shape of the internal form.
pub open spec fn internal_program(p: ProgramModel) -> bool {
    forall|i: int| 0 <= i < p.len() ==> internal_command((#[trigger] p[i]).command.content)
}

/// Functions of one parameter around a term of internal shape have that
/// shape.
pub proof fn lemma_fold_funcs_internal(params: Seq<Seq<char>>, body: STerm, span: crate::language::Span)
    requires
        internal_term(body),
    ensures
        internal_term(fold_funcs(params, body, span)),
    decreases params.len(),
{
    if params.len() > 0 {
        lemma_fold_funcs_internal(
            params.drop_last(),
            crate::language::WithSpan {
                span,
                content: TermModel::Func { params: seq![params.last()], body: Box::new(body) },
            },
            span,
        );
    }
}

/// What `RemoveNative` makes of a term has the shape of the internal form,
/// whatever the term.
pub proof fn lemma_rn_term_internal(t: STerm)
    ensures
        internal_term(rn_term(t)),
    decreases t, 1nat,
{
    match t.content {
        TermModel::If(a, b, d) => {
            lemma_rn_term_internal(*a);
            lemma_rn_term_internal(*b);
            lemma_rn_term_internal(*d);
            assert(internal_term(rn_term(t)));
        },
        TermModel::PrimOp { op, params } => {
            assert forall|i: int| 0 <= i < params.len() implies internal_term(
                #[trigger] rn_terms(params)[i],
            ) by {
                lemma_rn_term_internal(params[i]);
            }
            assert(internal_terms(rn_terms(params)));
            assert(internal_term(rn_term(t)));
        },
        TermModel::App(f, x) => {
            lemma_rn_term_internal(*f);
            lemma_rn_term_internal(*x);
            assert(internal_term(rn_term(t)));
        },
        TermModel::Func { params, body } => {
            lemma_rn_term_internal(*body);
            lemma_fold_funcs_internal(params, rn_term(*body), t.span);
            assert(internal_term(rn_term(t)));
        },
        TermModel::Tuple(ts) => {
            assert forall|i: int| 0 <= i < ts.len() implies internal_term(
                #[trigger] rn_terms(ts)[i],
            ) by {
                lemma_rn_term_internal(ts[i]);
            }
            assert(internal_terms(rn_terms(ts)));
            assert(internal_term(rn_term(t)));
        },
        TermModel::Match { def, cases } => {
            lemma_rn_term_internal(*def);
            lemma_rn_cases_internal(cases);
            assert(internal_term(rn_term(t)));
        },
        TermModel::Cons { cons, body } => {
            lemma_rn_term_internal(*body);
            assert(internal_term(rn_term(t)));
        },
        TermModel::Let { bind, body } => {
            lemma_rn_bind_internal(*bind);
            lemma_rn_term_internal(*body);
            assert(internal_term(rn_term(t)));
        },
        TermModel::NativeCons(name) => {
            reveal_with_fuel(internal_term, 4);
            assert(internal_term(rn_term(t)));
        },
        _ => {
            assert(internal_term(rn_term(t)));
        },
    }
}

/// What `RemoveNative` makes of a case list has branches of internal shape.
pub proof fn lemma_rn_cases_internal(cases: CaseSeq)
    ensures
        internal_cases(rn_cases(cases)),
    decreases cases, 1nat,
{
    assert forall|i: int| 0 <= i < cases.len() implies internal_term(
        (#[trigger] rn_cases(cases)[i]).1,
    ) by {
        lemma_rn_term_internal(cases[i].1);
    }
}

/// What `RemoveNative` makes of a binding has the shape of the internal
/// form, whatever the binding.
pub proof fn lemma_rn_bind_internal(b: SBind)
    ensures
        internal_bind(rn_bind(b)),
    decreases b, 0nat,
{
    match b.content.bind {
        BindTermModel::NormalBind(d) => {
            lemma_rn_term_internal(d);
            lemma_fold_funcs_internal(b.content.params, rn_term(d), d.span);
        },
        BindTermModel::FuncBind(cases) => {
            lemma_rn_cases_internal(cases);
            let fresh = crate::util::fresh_name(
                crate::util::free_vars_of(crate::processor::native_processor::branches(cases)),
            );
            let m = crate::language::WithSpan {
                span: b.span,
                content: TermModel::Match {
                    def: Box::new(
                        crate::language::WithSpan { span: b.span, content: TermModel::Var(fresh) },
                    ),
                    cases: rn_cases(cases),
                },
            };
            assert(internal_term(m)) by {
                reveal_with_fuel(internal_term, 3);
            }
            lemma_fold_funcs_internal(b.content.params.push(fresh), m, b.span);
        },
    }
}

/// The internal form of any surface program has the internal shape: every
/// function has one parameter, no constructor name stands as a value, every
/// binding is plain and without parameters, and every constructor scheme is
/// an arrow.
pub proof fn lemma_to_internal_shape(p: ProgramModel)
    requires
        to_internal(p) is Some,
    ensures
        internal_program(to_internal(p).unwrap()),
{
    let q = remove_zero_arity(Seq::empty(), p).unwrap();
    let r = remove_native(q);
    assert forall|i: int| 0 <= i < r.len() implies internal_command(
        (#[trigger] r[i]).command.content,
    ) by {
        let rs = rz_commands(Seq::empty(), p);
        assert(rs[i] is Some);
        let c = p[i].command.content;
        let c1 = q[i].command.content;
        assert(Some(c1) == rz_command(rz_context(Seq::empty(), p.take(i)), c));
        match c1 {
            CommandModel::TermEval(t) => {
                lemma_rn_term_internal(t);
            },
            CommandModel::TermDef(b) => {
                lemma_rn_bind_internal(b);
            },
            CommandModel::TypeDef { name, cons_list, arity } => {
                let before = c->TypeDef_cons_list;
                assert forall|j: int| 0 <= j < cons_list.len() implies unfold_scheme(
                    (#[trigger] cons_list[j]).1,
                ).1.content is Arr by {
                    assert(cons_list[j] == rz_cons(before[j]).0);
                }
            },
            _ => {},
        }
    }
}

/// Brings a surface program into internal form.
///
/// Returns `None` exactly where `to_internal` gives none; else the program
/// that `to_internal` gives, which has the internal shape.
pub fn surface_to_internal(program: &Vec<DecoratedCommand>) -> (r: Option<Vec<DecoratedCommand>>)
    ensures
        match r {
            Some(p) => to_internal(program_view(program@)) == Some(program_view(p@))
                && internal_program(program_view(p@)),
            None => to_internal(program_view(program@)) is None,
        },
{
    let mut first = RemoverZeroArity::default();
    match first.process_program(program) {
        Some(q) => {
            let mut second = RemoveNative::default();
            let p = second.process_program(&q);
            proof {
                lemma_to_internal_shape(program_view(program@));
            }
            Some(p)
        },
        None => None,
    }
}

/// Brings an internal program into surface form.
///
/// Returns `None` exactly where `to_surface` gives none; else the program
/// that `to_surface` gives.
pub fn internal_to_surface(program: &Vec<DecoratedCommand>) -> (r: Option<Vec<DecoratedCommand>>)
    ensures
        match r {
            Some(p) => to_surface(program_view(program@)) == Some(program_view(p@)),
            None => to_surface(program_view(program@)) is None,
        },
{
    let mut first = AddNative::default();
    match first.process_program(program) {
        Some(q) => {
            let mut second = AddZeroArity::default();
            second.process_program(&q)
        },
        None => None,
    }
}

} // verus!
