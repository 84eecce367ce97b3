//! Constructor references and functions: the internal form has functions
//! of one parameter, constructors applied to one argument, and plain
//! bindings without parameters; the surface form has functions of several
//! parameters, constructor names that stand for themselves, and `function`
//! bindings.

use vstd::prelude::*;
use crate::language::{
    Span, WithSpan, spanned, share, SpanPattern, SPattern, Term, TermModel, SpanTerm, STerm, Bind,
    BindModel, BindTerm, BindTermModel, SpanBind, SBind, CaseSeq, Command, CommandModel,
    DecoratedCommand, DecoratedCommandModel, ProgramModel, program_view, nodes_view, cases_view,
    SpanType, lemma_term_view, lemma_bind_view,
};
use crate::text::{names_view, clone_names};
use crate::util::{
    pattern_vars, free_vars, free_vars_of, fresh_name, name_set, collect_pattern_vars,
    collect_free_vars, get_free_name,
};
use crate::processor::processor::{all_some, unwrap_all, opt_node};
use crate::processor::arity_processor::clone_config;

verus! {

// ---------------------------------------------------------------------------
// Surface to internal
// ---------------------------------------------------------------------------

/// The name of the parameter of the function that a bare constructor name
/// becomes.
pub open spec fn eta_name() -> Seq<char> {
    "tmp"@
}

/// `body` under one function of one parameter for each name of `params`,
/// the first name outermost; each function carries `span`.
pub open spec fn fold_funcs(params: Seq<Seq<char>>, body: STerm, span: Span) -> STerm
    decreases params.len(),
{
    if params.len() == 0 {
        body
    } else {
        fold_funcs(
            params.drop_last(),
            WithSpan {
                span,
                content: TermModel::Func { params: seq![params.last()], body: Box::new(body) },
            },
            span,
        )
    }
}

/// The branches of a case list.
pub open spec fn branches(cases: CaseSeq) -> Seq<STerm> {
    Seq::new(cases.len(), |i: int| cases[i].1)
}

/// A term in internal form: every function has one parameter, a
/// constructor applied to a term is a constructor term, a bare constructor
/// name is the function that applies it to its parameter, and every binding
/// is a plain one without parameters.
pub open spec fn rn_term(t: STerm) -> STerm
    decreases t, 1nat,
{
    match t.content {
        TermModel::Int(_) | TermModel::Bool(_) | TermModel::Unit | TermModel::Var(_) => t,
        TermModel::If(a, b, d) => WithSpan {
            span: t.span,
            content: TermModel::If(
                Box::new(rn_term(*a)),
                Box::new(rn_term(*b)),
                Box::new(rn_term(*d)),
            ),
        },
        TermModel::PrimOp { op, params } => WithSpan {
            span: t.span,
            content: TermModel::PrimOp { op, params: rn_terms(params) },
        },
        TermModel::App(f, x) => match f.content {
            TermModel::NativeCons(name) => WithSpan {
                span: t.span,
                content: TermModel::Cons { cons: name, body: Box::new(rn_term(*x)) },
            },
            _ => WithSpan {
                span: t.span,
                content: TermModel::App(Box::new(rn_term(*f)), Box::new(rn_term(*x))),
            },
        },
        TermModel::Func { params, body } => fold_funcs(params, rn_term(*body), t.span),
        TermModel::Tuple(ts) => WithSpan { span: t.span, content: TermModel::Tuple(rn_terms(ts)) },
        TermModel::Match { def, cases } => WithSpan {
            span: t.span,
            content: TermModel::Match { def: Box::new(rn_term(*def)), cases: rn_cases(cases) },
        },
        TermModel::Cons { cons, body } => WithSpan {
            span: t.span,
            content: TermModel::Cons { cons, body: Box::new(rn_term(*body)) },
        },
        TermModel::Let { bind, body } => WithSpan {
            span: t.span,
            content: TermModel::Let {
                bind: Box::new(rn_bind(*bind)),
                body: Box::new(rn_term(*body)),
            },
        },
        TermModel::NativeCons(name) => WithSpan {
            span: t.span,
            content: TermModel::Func {
                params: seq![eta_name()],
                body: Box::new(
                    WithSpan {
                        span: t.span,
                        content: TermModel::Cons {
                            cons: name,
                            body: Box::new(
                                WithSpan { span: t.span, content: TermModel::Var(eta_name()) },
                            ),
                        },
                    },
                ),
            },
        },
    }
}

/// The terms of a list, each in internal form.
pub open spec fn rn_terms(ts: Seq<STerm>) -> Seq<STerm>
    decreases ts, 1nat,
{
    Seq::new(
        ts.len(),
        |i: int|
            if 0 <= i < ts.len() {
                rn_term(ts[i])
            } else {
                arbitrary()
            },
    )
}

/// The cases of a list, each with its branch in internal form.
pub open spec fn rn_cases(cases: CaseSeq) -> CaseSeq
    decreases cases, 1nat,
{
    Seq::new(
        cases.len(),
        |i: int|
            if 0 <= i < cases.len() {
                (cases[i].0, rn_term(cases[i].1))
            } else {
                arbitrary()
            },
    )
}

/// A binding in internal form: a plain binding without parameters, whose
/// term is the definition under one function for each parameter.
///
/// A `function` binding first becomes a match on one more parameter, the
/// last; its name is the first of `var0`, `var1`, ... that is free in no
/// branch. The functions carry the span of the definition, the match and
/// its variable the span of the binding.
pub open spec fn rn_bind(b: SBind) -> SBind
    decreases b, 0nat,
{
    let term = match b.content.bind {
        BindTermModel::NormalBind(d) => fold_funcs(b.content.params, rn_term(d), d.span),
        BindTermModel::FuncBind(cases) => {
            let fresh = fresh_name(free_vars_of(branches(cases)));
            fold_funcs(
                b.content.params.push(fresh),
                WithSpan {
                    span: b.span,
                    content: TermModel::Match {
                        def: Box::new(WithSpan { span: b.span, content: TermModel::Var(fresh) }),
                        cases: rn_cases(cases),
                    },
                },
                b.span,
            )
        },
    };
    WithSpan {
        span: b.span,
        content: BindModel {
            bind: BindTermModel::NormalBind(term),
            name: b.content.name,
            params: Seq::empty(),
            is_rec: b.content.is_rec,
        },
    }
}

/// A command in internal form.
pub open spec fn rn_command(command: CommandModel) -> CommandModel {
    match command {
        CommandModel::TermEval(t) => CommandModel::TermEval(rn_term(t)),
        CommandModel::TermDef(b) => CommandModel::TermDef(rn_bind(b)),
        _ => command,
    }
}

/// A program in internal form, given that its constructors all have a
/// payload.
pub open spec fn remove_native(p: ProgramModel) -> ProgramModel {
    Seq::new(
        p.len(),
        |i: int|
            DecoratedCommandModel {
                command: WithSpan {
                    span: p[i].command.span,
                    content: rn_command(p[i].command.content),
                },
                decos: p[i].decos,
            },
    )
}

// ---------------------------------------------------------------------------
// Internal to surface
// ---------------------------------------------------------------------------

/// The function of the parameters `acc` and of those of the functions that
/// `body` starts with, around what is below them. Where that is a
/// constructor applied to the last parameter, the parameter goes and the
/// constructor name stays, with the span of the argument.
pub open spec fn an_func(span: Span, acc: Seq<Seq<char>>, body: STerm) -> Option<STerm>
    decreases body, 2nat,
{
    let plain = match an_term(body) {
        Some(b2) => Some(
            WithSpan { span, content: TermModel::Func { params: acc, body: Box::new(b2) } },
        ),
        None => None,
    };
    match body.content {
        TermModel::Func { params, body: inner } => an_func(span, acc + params, *inner),
        TermModel::Cons { cons, body: arg } => if acc.len() > 0 && arg.content == TermModel::Var(
            acc.last(),
        ) {
            Some(
                WithSpan {
                    span,
                    content: TermModel::Func {
                        params: acc.drop_last(),
                        body: Box::new(
                            WithSpan { span: arg.span, content: TermModel::NativeCons(cons) },
                        ),
                    },
                },
            )
        } else {
            plain
        },
        _ => plain,
    }
}

/// A term in surface form: nested functions are one function of several
/// parameters, and the function that applies a constructor to its last
/// parameter is the constructor name.
///
/// `None` where a binding inside the term is a `function` binding.
pub open spec fn an_term(t: STerm) -> Option<STerm>
    decreases t, 1nat,
{
    match t.content {
        TermModel::Int(_) | TermModel::Bool(_) | TermModel::Unit | TermModel::Var(_) => Some(t),
        TermModel::If(a, b, d) => match (an_term(*a), an_term(*b), an_term(*d)) {
            (Some(a2), Some(b2), Some(d2)) => Some(
                WithSpan {
                    span: t.span,
                    content: TermModel::If(Box::new(a2), Box::new(b2), Box::new(d2)),
                },
            ),
            _ => None,
        },
        TermModel::PrimOp { op, params } => {
            let rs = an_terms(params);
            if all_some(rs) {
                Some(WithSpan { span: t.span, content: TermModel::PrimOp { op, params: unwrap_all(rs) } })
            } else {
                None
            }
        },
        TermModel::Tuple(ts) => {
            let rs = an_terms(ts);
            if all_some(rs) {
                Some(WithSpan { span: t.span, content: TermModel::Tuple(unwrap_all(rs)) })
            } else {
                None
            }
        },
        TermModel::Match { def, cases } => {
            let rs = an_cases(cases);
            match an_term(*def) {
                Some(d2) => if all_some(rs) {
                    Some(
                        WithSpan {
                            span: t.span,
                            content: TermModel::Match { def: Box::new(d2), cases: unwrap_all(rs) },
                        },
                    )
                } else {
                    None
                },
                None => None,
            }
        },
        TermModel::Cons { cons, body } => match an_term(*body) {
            Some(b2) => Some(
                WithSpan { span: t.span, content: TermModel::Cons { cons, body: Box::new(b2) } },
            ),
            None => None,
        },
        TermModel::Let { bind, body } => match (an_bind(*bind), an_term(*body)) {
            (Some(b2), Some(t2)) => Some(
                WithSpan {
                    span: t.span,
                    content: TermModel::Let { bind: Box::new(b2), body: Box::new(t2) },
                },
            ),
            _ => None,
        },
        TermModel::NativeCons(_) => Some(t),
        TermModel::App(f, x) => match (an_term(*f), an_term(*x)) {
            (Some(f2), Some(x2)) => Some(
                WithSpan { span: t.span, content: TermModel::App(Box::new(f2), Box::new(x2)) },
            ),
            _ => None,
        },
        TermModel::Func { params, body } => an_func(t.span, params, *body),
    }
}

/// The terms of a list, each rewritten.
pub open spec fn an_terms(ts: Seq<STerm>) -> Seq<Option<STerm>>
    decreases ts, 1nat,
{
    Seq::new(
        ts.len(),
        |i: int|
            if 0 <= i < ts.len() {
                an_term(ts[i])
            } else {
                None
            },
    )
}

/// The cases of a list, each with its branch rewritten.
pub open spec fn an_cases(cases: CaseSeq) -> Seq<Option<(SPattern, STerm)>>
    decreases cases, 1nat,
{
    Seq::new(
        cases.len(),
        |i: int|
            if 0 <= i < cases.len() {
                match an_term(cases[i].1) {
                    Some(t2) => Some((cases[i].0, t2)),
                    None => None,
                }
            } else {
                None
            },
    )
}

/// Whether a match on the parameter `last` can be written as a `function`
/// binding: no pattern binds `last`, and `last` is free in no branch.
pub open spec fn can_be_function(last: Seq<char>, cases: CaseSeq) -> bool {
    forall|i: int|
        0 <= i < cases.len() ==> !pattern_vars((#[trigger] cases[i]).0.content).contains(last)
            && !free_vars(cases[i].1.content, Set::empty()).contains(last)
}

/// The binding `b` with the parameters `acc` and those of the functions
/// that `term` starts with, around what is below them: a `function`
/// binding where that is a match on the last parameter that
/// `can_be_function` accepts, which then goes; else a plain binding.
pub open spec fn an_bind_peel(b: SBind, acc: Seq<Seq<char>>, term: STerm) -> Option<SBind>
    decreases term, 3nat,
{
    let plain = match an_term(term) {
        Some(t2) => Some(
            WithSpan {
                span: b.span,
                content: BindModel {
                    bind: BindTermModel::NormalBind(t2),
                    name: b.content.name,
                    params: acc,
                    is_rec: b.content.is_rec,
                },
            },
        ),
        None => None,
    };
    match term.content {
        TermModel::Func { params, body } => an_bind_peel(b, acc + params, *body),
        TermModel::Match { def, cases } => if acc.len() > 0 && def.content == TermModel::Var(
            acc.last(),
        ) && can_be_function(acc.last(), cases) {
            let rs = an_cases(cases);
            if all_some(rs) {
                Some(
                    WithSpan {
                        span: b.span,
                        content: BindModel {
                            bind: BindTermModel::FuncBind(unwrap_all(rs)),
                            name: b.content.name,
                            params: acc.drop_last(),
                            is_rec: b.content.is_rec,
                        },
                    },
                )
            } else {
                None
            }
        } else {
            plain
        },
        _ => plain,
    }
}

/// A binding in surface form; `None` for a `function` binding, or where
/// the definition is refused.
pub open spec fn an_bind(b: SBind) -> Option<SBind>
    decreases b, 0nat,
{
    match b.content.bind {
        BindTermModel::NormalBind(d) => an_bind_peel(b, b.content.params, d),
        BindTermModel::FuncBind(_) => None,
    }
}

/// A command in surface form.
pub open spec fn an_command(command: CommandModel) -> Option<CommandModel> {
    match command {
        CommandModel::TermEval(t) => match an_term(t) {
            Some(t2) => Some(CommandModel::TermEval(t2)),
            None => None,
        },
        CommandModel::TermDef(b) => match an_bind(b) {
            Some(b2) => Some(CommandModel::TermDef(b2)),
            None => None,
        },
        _ => Some(command),
    }
}

/// The commands of a program, each rewritten.
pub open spec fn an_commands(p: ProgramModel) -> Seq<Option<DecoratedCommandModel>> {
    Seq::new(
        p.len(),
        |i: int|
            match an_command(p[i].command.content) {
                Some(c2) => Some(
                    DecoratedCommandModel {
                        command: WithSpan { span: p[i].command.span, content: c2 },
                        decos: p[i].decos,
                    },
                ),
                None => None,
            },
    )
}

/// A program in surface form but for its nullary constructors; `None`
/// where a command is refused.
pub open spec fn add_native(p: ProgramModel) -> Option<ProgramModel> {
    if all_some(an_commands(p)) {
        Some(unwrap_all(an_commands(p)))
    } else {
        None
    }
}

// ---------------------------------------------------------------------------
// The passes
// ---------------------------------------------------------------------------

/// Brings terms and bindings into internal form.
pub struct RemoveNative {}

impl Default for RemoveNative {
    fn default() -> (r: Self) {
        RemoveNative {  }
    }
}

/// Wraps `body` in one function for each name of `params`.
fn wrap_funcs(params: &Vec<String>, body: SpanTerm, span: Span) -> (r: SpanTerm)
    ensures
        r@ == fold_funcs(names_view(params@), body@, span),
{
    let mut res = body;
    let mut i: usize = params.len();
    let ghost all = names_view(params@);
    assert(all.take(params@.len() as int) =~= all);
    while i > 0
        invariant
            i <= params@.len(),
            all == names_view(params@),
            fold_funcs(all, body@, span) == fold_funcs(all.take(i as int), res@, span),
        decreases i,
    {
        i = i - 1;
        let mut one: Vec<String> = Vec::new();
        one.push(params[i].clone());
        assert(names_view(one@) =~= seq![all[i as int]]);
        let n = Term::Func { params: one, body: res };
        proof {
            lemma_term_view(&n);
            assert(all.take(i + 1).drop_last() =~= all.take(i as int));
            assert(all.take(i + 1).last() == all[i as int]);
        }
        res = spanned(span, n);
    }
    res
}

/// A copy of a list of names with one more name at its end.
fn names_with(names: &Vec<String>, last: String) -> (r: Vec<String>)
    ensures
        names_view(r@) == names_view(names@).push(last@),
{
    let mut out = clone_names(names);
    let ghost before = names_view(out@);
    out.push(last);
    assert(names_view(out@) =~= before.push(last@));
    out
}

/// The branches of a case list.
fn branches_of(cases: &Vec<(SpanPattern, SpanTerm)>) -> (r: Vec<SpanTerm>)
    ensures
        nodes_view(r@) == branches(cases_view(cases@)),
{
    let mut out: Vec<SpanTerm> = Vec::new();
    let mut i: usize = 0;
    while i < cases.len()
        invariant
            i <= cases@.len(),
            out@.len() == i,
            forall|j: int| 0 <= j < i ==> (#[trigger] out@[j])@ == cases@[j].1@,
        decreases cases@.len() - i,
    {
        out.push(share(&cases[i].1));
        i = i + 1;
    }
    assert(nodes_view(out@) =~= branches(cases_view(cases@)));
    out
}

impl RemoveNative {
    /// Rewrites every term of a list.
    #[verifier::loop_isolation(false)]
    pub fn process_terms(&self, ts: &Vec<SpanTerm>) -> (r: Vec<SpanTerm>)
        ensures
            nodes_view(r@) == rn_terms(nodes_view(ts@)),
        decreases ts, 1nat,
    {
        let mut out: Vec<SpanTerm> = Vec::new();
        let mut i: usize = 0;
        while i < ts.len()
            invariant
                i <= ts@.len(),
                out@.len() == i,
                forall|j: int| 0 <= j < i ==> (#[trigger] out@[j])@ == rn_term(ts@[j]@),
            decreases ts@.len() - i,
        {
            out.push(self.process_term(&ts[i]));
            i = i + 1;
        }
        assert(nodes_view(out@) =~= rn_terms(nodes_view(ts@)));
        out
    }

    /// Rewrites the branch of every case of a list.
    #[verifier::loop_isolation(false)]
    pub fn process_cases(&self, cases: &Vec<(SpanPattern, SpanTerm)>) -> (r: Vec<
        (SpanPattern, SpanTerm),
    >)
        ensures
            cases_view(r@) == rn_cases(cases_view(cases@)),
        decreases cases, 1nat,
    {
        let mut out: Vec<(SpanPattern, SpanTerm)> = Vec::new();
        let mut i: usize = 0;
        while i < cases.len()
            invariant
                i <= cases@.len(),
                out@.len() == i,
                forall|j: int|
                    0 <= j < i ==> (#[trigger] out@[j]).0@ == cases@[j].0@ && out@[j].1@ == rn_term(
                        cases@[j].1@,
                    ),
            decreases cases@.len() - i,
        {
            out.push((self.process_pattern(&cases[i].0), self.process_term(&cases[i].1)));
            i = i + 1;
        }
        assert(cases_view(out@) =~= rn_cases(cases_view(cases@)));
        out
    }

    /// Returns a pattern as it is: the pass changes no pattern.
    pub fn process_pattern(&self, pattern: &SpanPattern) -> (r: SpanPattern)
        ensures
            r@ == pattern@,
    {
        share(pattern)
    }

    /// Returns a type as it is: the pass changes no type.
    pub fn process_type(&self, ty: &SpanType) -> (r: SpanType)
        ensures
            r@ == ty@,
    {
        share(ty)
    }

    /// Brings a binding into internal form.
    pub fn process_bind(&self, bind: &SpanBind) -> (r: SpanBind)
        ensures
            r@ == rn_bind(bind@),
        decreases bind, 0nat,
    {
        proof {
            lemma_bind_view(&bind.content);
        }
        let term = match &bind.content.bind {
            BindTerm::NormalBind(d) => {
                let d2 = self.process_term(d);
                wrap_funcs(&bind.content.params, d2, d.span)
            },
            BindTerm::FuncBind(cases) => {
                let fresh = get_free_name(&branches_of(cases));
                let var = spanned(bind.span, Term::Var(fresh.clone()));
                let m = Term::Match { def: var, cases: self.process_cases(cases) };
                proof {
                    lemma_term_view(&m);
                }
                let params = names_with(&bind.content.params, fresh);
                wrap_funcs(&params, spanned(bind.span, m), bind.span)
            },
        };
        let params: Vec<String> = Vec::new();
        assert(names_view(params@) =~= Seq::<Seq<char>>::empty());
        let b = Bind {
            bind: BindTerm::NormalBind(term),
            name: bind.content.name.clone(),
            params,
            is_rec: bind.content.is_rec,
        };
        proof {
            lemma_bind_view(&b);
        }
        spanned(bind.span, b)
    }

    /// Brings a term into internal form.
    pub fn process_term(&self, term: &SpanTerm) -> (r: SpanTerm)
        ensures
            r@ == rn_term(term@),
        decreases term, 1nat,
    {
        proof {
            lemma_term_view(&term.content);
        }
        let n = match &term.content {
            Term::Int(_) | Term::Bool(_) | Term::Unit | Term::Var(_) => {
                return share(term);
            },
            Term::If(a, b, d) => Term::If(
                self.process_term(a),
                self.process_term(b),
                self.process_term(d),
            ),
            Term::PrimOp { op, params } => Term::PrimOp {
                op: op.clone(),
                params: self.process_terms(params),
            },
            Term::App(f, x) => match &f.content {
                Term::NativeCons(name) => Term::Cons {
                    cons: name.clone(),
                    body: self.process_term(x),
                },
                _ => Term::App(self.process_term(f), self.process_term(x)),
            },
            Term::Func { params, body } => {
                let b2 = self.process_term(body);
                return wrap_funcs(params, b2, term.span);
            },
            Term::Tuple(ts) => Term::Tuple(self.process_terms(ts)),
            Term::Match { def, cases } => Term::Match {
                def: self.process_term(def),
                cases: self.process_cases(cases),
            },
            Term::Cons { cons, body } => Term::Cons {
                cons: cons.clone(),
                body: self.process_term(body),
            },
            Term::Let { bind, body } => Term::Let {
                bind: self.process_bind(bind),
                body: self.process_term(body),
            },
            Term::NativeCons(name) => {
                let var = spanned(term.span, Term::Var(String::from_str("tmp")));
                let cons = Term::Cons { cons: name.clone(), body: var };
                let mut params: Vec<String> = Vec::new();
                params.push(String::from_str("tmp"));
                assert(names_view(params@) =~= seq![eta_name()]);
                proof {
                    lemma_term_view(&cons);
                }
                Term::Func { params, body: spanned(term.span, cons) }
            },
        };
        proof {
            lemma_term_view(&n);
        }
        spanned(term.span, n)
    }

    /// Brings a command into internal form.
    pub fn process_command(&mut self, command: &Command) -> (r: Command)
        ensures
            r@ == rn_command(command@),
    {
        match command {
            Command::TermEval(t) => Command::TermEval(self.process_term(t)),
            Command::TermDef(b) => Command::TermDef(self.process_bind(b)),
            Command::Config { name, val } => Command::Config {
                name: name.clone(),
                val: clone_config(val),
            },
            Command::TypeDef { name, cons_list, arity } => {
                let mut out: Vec<(String, SpanType)> = Vec::new();
                let mut i: usize = 0;
                while i < cons_list.len()
                    invariant
                        i <= cons_list@.len(),
                        out@.len() == i,
                        forall|j: int|
                            0 <= j < i ==> (#[trigger] out@[j]).0@ == cons_list@[j].0@
                                && out@[j].1@ == cons_list@[j].1@,
                    decreases cons_list@.len() - i,
                {
                    out.push((cons_list[i].0.clone(), self.process_type(&cons_list[i].1)));
                    i = i + 1;
                }
                assert(crate::language::cons_list_view(out@) =~= crate::language::cons_list_view(
                    cons_list@,
                ));
                Command::TypeDef { name: name.clone(), cons_list: out, arity: *arity }
            },
            Command::TypeAlias { name, def } => Command::TypeAlias {
                name: name.clone(),
                def: self.process_type(def),
            },
            Command::TypeDeclare { name, ty } => Command::TypeDeclare {
                name: name.clone(),
                ty: self.process_type(ty),
            },
        }
    }

    /// Brings the commands of a program into internal form.
    pub fn process_program(&mut self, program: &Vec<DecoratedCommand>) -> (r: Vec<
        DecoratedCommand,
    >)
        ensures
            program_view(r@) == remove_native(program_view(program@)),
    {
        let mut out: Vec<DecoratedCommand> = Vec::new();
        let mut i: usize = 0;
        while i < program.len()
            invariant
                i <= program@.len(),
                out@.len() == i,
                forall|j: int|
                    0 <= j < i ==> (#[trigger] out@[j])@ == remove_native(
                        program_view(program@),
                    )[j],
            decreases program@.len() - i,
        {
            let c = self.process_command(&program[i].command.content);
            out.push(
                DecoratedCommand {
                    command: spanned(program[i].command.span, c),
                    decos: clone_names(&program[i].decos),
                },
            );
            i = i + 1;
        }
        assert(program_view(out@) =~= remove_native(program_view(program@)));
        out
    }
}

/// Brings terms and bindings into surface form.
pub struct AddNative {}

impl Default for AddNative {
    fn default() -> (r: Self) {
        AddNative {  }
    }
}

/// The names of `a` followed by those of `b`.
fn names_joined(a: &Vec<String>, b: &Vec<String>) -> (r: Vec<String>)
    ensures
        names_view(r@) == names_view(a@) + names_view(b@),
{
    let mut out = clone_names(a);
    let mut i: usize = 0;
    assert(names_view(b@).take(0) =~= Seq::<Seq<char>>::empty());
    assert(names_view(out@) + Seq::<Seq<char>>::empty() =~= names_view(out@));
    while i < b.len()
        invariant
            i <= b@.len(),
            names_view(out@) == names_view(a@) + names_view(b@).take(i as int),
        decreases b@.len() - i,
    {
        let ghost before = names_view(out@);
        out.push(b[i].clone());
        assert(names_view(out@) =~= before.push(b@[i as int]@));
        assert(names_view(b@).take(i + 1) =~= names_view(b@).take(i as int).push(b@[i as int]@));
        assert(names_view(a@) + names_view(b@).take(i as int).push(b@[i as int]@) =~= (names_view(
            a@,
        ) + names_view(b@).take(i as int)).push(b@[i as int]@));
        i = i + 1;
    }
    assert(names_view(b@).take(b@.len() as int) =~= names_view(b@));
    out
}

/// A copy of a list of names without its last name.
fn names_init(names: &Vec<String>) -> (r: Vec<String>)
    requires
        names@.len() > 0,
    ensures
        names_view(r@) == names_view(names@).drop_last(),
{
    let mut out = clone_names(names);
    let ghost before = names_view(out@);
    out.pop();
    assert(names_view(out@) =~= before.drop_last());
    out
}

/// Whether a term is the variable `name`.
fn is_var(term: &SpanTerm, name: &String) -> (b: bool)
    ensures
        b == (term@.content == TermModel::Var(name@)),
{
    proof {
        lemma_term_view(&term.content);
    }
    match &term.content {
        Term::Var(n) => *n == *name,
        _ => false,
    }
}

fn has_name(names: &Vec<String>, name: &String) -> (b: bool)
    ensures
        b == names_view(names@).contains(name@),
{
    let mut i: usize = 0;
    while i < names.len()
        invariant
            i <= names@.len(),
            forall|j: int| 0 <= j < i ==> names_view(names@)[j] != name@,
        decreases names@.len() - i,
    {
        if names[i] == *name {
            assert(names_view(names@)[i as int] == name@);
            return true;
        }
        i = i + 1;
    }
    false
}

/// Whether a match on the parameter `last` can be written as a `function`
/// binding.
fn check_function(last: &String, cases: &Vec<(SpanPattern, SpanTerm)>) -> (b: bool)
    ensures
        b == can_be_function(last@, cases_view(cases@)),
{
    let mut i: usize = 0;
    while i < cases.len()
        invariant
            i <= cases@.len(),
            forall|j: int|
                0 <= j < i ==> !pattern_vars((#[trigger] cases_view(cases@)[j]).0.content).contains(
                    last@,
                ) && !free_vars(cases_view(cases@)[j].1.content, Set::empty()).contains(last@),
        decreases cases@.len() - i,
    {
        let bound = collect_pattern_vars(&cases[i].0.content);
        if has_name(&bound, last) {
            assert(pattern_vars(cases_view(cases@)[i as int].0.content).contains(last@));
            return false;
        }
        let free = collect_free_vars(&cases[i].1.content);
        if has_name(&free, last) {
            assert(name_set(names_view(free@)).contains(last@));
            assert(free_vars(cases_view(cases@)[i as int].1.content, Set::empty()).contains(last@));
            return false;
        }
        assert(!name_set(names_view(free@)).contains(last@));
        i = i + 1;
    }
    true
}

impl AddNative {
    /// Rewrites every term of a list; `None` where one of them is refused.
    #[verifier::loop_isolation(false)]
    pub fn process_terms(&self, ts: &Vec<SpanTerm>) -> (r: Option<Vec<SpanTerm>>)
        ensures
            match r {
                Some(v) => all_some(an_terms(nodes_view(ts@))) && nodes_view(v@) == unwrap_all(
                    an_terms(nodes_view(ts@)),
                ),
                None => !all_some(an_terms(nodes_view(ts@))),
            },
        decreases ts, 1nat,
    {
        let ghost rs = an_terms(nodes_view(ts@));
        let mut out: Vec<SpanTerm> = Vec::new();
        let mut i: usize = 0;
        while i < ts.len()
            invariant
                i <= ts@.len(),
                out@.len() == i,
                forall|j: int| 0 <= j < i ==> (#[trigger] rs[j]) == Some(out@[j]@),
            decreases ts@.len() - i,
        {
            match self.process_term(&ts[i]) {
                Some(v) => {
                    out.push(v);
                },
                None => {
                    assert(rs[i as int] is None);
                    return None;
                },
            }
            i = i + 1;
        }
        assert(nodes_view(out@) =~= unwrap_all(rs));
        Some(out)
    }

    /// Rewrites the branch of every case of a list; `None` where one of
    /// them is refused.
    #[verifier::loop_isolation(false)]
    pub fn process_cases(&self, cases: &Vec<(SpanPattern, SpanTerm)>) -> (r: Option<
        Vec<(SpanPattern, SpanTerm)>,
    >)
        ensures
            match r {
                Some(v) => all_some(an_cases(cases_view(cases@))) && cases_view(v@) == unwrap_all(
                    an_cases(cases_view(cases@)),
                ),
                None => !all_some(an_cases(cases_view(cases@))),
            },
        decreases cases, 1nat,
    {
        let ghost rs = an_cases(cases_view(cases@));
        let mut out: Vec<(SpanPattern, SpanTerm)> = Vec::new();
        let mut i: usize = 0;
        while i < cases.len()
            invariant
                i <= cases@.len(),
                out@.len() == i,
                forall|j: int| 0 <= j < i ==> (#[trigger] rs[j]) == Some((out@[j].0@, out@[j].1@)),
            decreases cases@.len() - i,
        {
            let t2 = match self.process_term(&cases[i].1) {
                Some(v) => v,
                None => {
                    assert(rs[i as int] is None);
                    return None;
                },
            };
            out.push((self.process_pattern(&cases[i].0), t2));
            i = i + 1;
        }
        assert(cases_view(out@) =~= unwrap_all(rs));
        Some(out)
    }

    /// Returns a pattern as it is: the pass changes no pattern.
    pub fn process_pattern(&self, pattern: &SpanPattern) -> (r: SpanPattern)
        ensures
            r@ == pattern@,
    {
        share(pattern)
    }

    /// Returns a type as it is: the pass changes no type.
    pub fn process_type(&self, ty: &SpanType) -> (r: SpanType)
        ensures
            r@ == ty@,
    {
        share(ty)
    }

    /// Builds the function of the parameters `acc` and of those of the
    /// functions that `body` starts with.
    pub fn process_func(&self, span: Span, acc: Vec<String>, body: &SpanTerm) -> (r: Option<
        SpanTerm,
    >)
        ensures
            opt_node(r) == an_func(span, names_view(acc@), body@),
        decreases body, 2nat,
    {
        proof {
            lemma_term_view(&body.content);
        }
        match &body.content {
            Term::Func { params, body: inner } => {
                return self.process_func(span, names_joined(&acc, params), inner);
            },
            Term::Cons { cons, body: arg } => {
                if acc.len() > 0 && is_var(arg, &acc[acc.len() - 1]) {
                    let name = spanned(arg.span, Term::NativeCons(cons.clone()));
                    let n = Term::Func { params: names_init(&acc), body: name };
                    proof {
                        lemma_term_view(&n);
                    }
                    return Some(spanned(span, n));
                }
            },
            _ => {},
        }
        match self.process_term(body) {
            Some(b2) => {
                let n = Term::Func { params: acc, body: b2 };
                proof {
                    lemma_term_view(&n);
                }
                Some(spanned(span, n))
            },
            None => None,
        }
    }

    /// Builds the binding `bind` with the parameters `acc` and those of the
    /// functions that `term` starts with.
    pub fn process_peel(&self, bind: &SpanBind, acc: Vec<String>, term: &SpanTerm) -> (r: Option<
        SpanBind,
    >)
        ensures
            opt_node(r) == an_bind_peel(bind@, names_view(acc@), term@),
        decreases term, 3nat,
    {
        proof {
            lemma_term_view(&term.content);
            lemma_bind_view(&bind.content);
        }
        match &term.content {
            Term::Func { params, body } => {
                return self.process_peel(bind, names_joined(&acc, params), body);
            },
            Term::Match { def, cases } => {
                if acc.len() > 0 && is_var(def, &acc[acc.len() - 1]) && check_function(
                    &acc[acc.len() - 1],
                    cases,
                ) {
                    return match self.process_cases(cases) {
                        Some(cs) => {
                            let b = Bind {
                                bind: BindTerm::FuncBind(cs),
                                name: bind.content.name.clone(),
                                params: names_init(&acc),
                                is_rec: bind.content.is_rec,
                            };
                            proof {
                                lemma_bind_view(&b);
                            }
                            Some(spanned(bind.span, b))
                        },
                        None => None,
                    };
                }
            },
            _ => {},
        }
        match self.process_term(term) {
            Some(t2) => {
                let b = Bind {
                    bind: BindTerm::NormalBind(t2),
                    name: bind.content.name.clone(),
                    params: acc,
                    is_rec: bind.content.is_rec,
                };
                proof {
                    lemma_bind_view(&b);
                }
                Some(spanned(bind.span, b))
            },
            None => None,
        }
    }

    /// Brings a binding into surface form.
    pub fn process_bind(&self, bind: &SpanBind) -> (r: Option<SpanBind>)
        ensures
            opt_node(r) == an_bind(bind@),
        decreases bind, 0nat,
    {
        proof {
            lemma_bind_view(&bind.content);
        }
        match &bind.content.bind {
            BindTerm::NormalBind(d) => self.process_peel(
                bind,
                clone_names(&bind.content.params),
                d,
            ),
            BindTerm::FuncBind(_) => None,
        }
    }

    /// Brings a term into surface form.
    pub fn process_term(&self, term: &SpanTerm) -> (r: Option<SpanTerm>)
        ensures
            opt_node(r) == an_term(term@),
        decreases term, 1nat,
    {
        proof {
            lemma_term_view(&term.content);
        }
        match &term.content {
            Term::Int(_) | Term::Bool(_) | Term::Unit | Term::Var(_) => Some(share(term)),
            Term::If(a, b, d) => {
                let a2 = match self.process_term(a) {
                    Some(v) => v,
                    None => {
                        return None;
                    },
                };
                let b2 = match self.process_term(b) {
                    Some(v) => v,
                    None => {
                        return None;
                    },
                };
                let d2 = match self.process_term(d) {
                    Some(v) => v,
                    None => {
                        return None;
                    },
                };
                let n = Term::If(a2, b2, d2);
                proof {
                    lemma_term_view(&n);
                }
                Some(spanned(term.span, n))
            },
            Term::PrimOp { op, params } => {
                match self.process_terms(params) {
                    Some(ps) => {
                        let n = Term::PrimOp { op: op.clone(), params: ps };
                        proof {
                            lemma_term_view(&n);
                        }
                        Some(spanned(term.span, n))
                    },
                    None => None,
                }
            },
            Term::Tuple(ts) => {
                match self.process_terms(ts) {
                    Some(ps) => {
                        let n = Term::Tuple(ps);
                        proof {
                            lemma_term_view(&n);
                        }
                        Some(spanned(term.span, n))
                    },
                    None => None,
                }
            },
            Term::Match { def, cases } => {
                let d2 = match self.process_term(def) {
                    Some(v) => v,
                    None => {
                        return None;
                    },
                };
                match self.process_cases(cases) {
                    Some(cs) => {
                        let n = Term::Match { def: d2, cases: cs };
                        proof {
                            lemma_term_view(&n);
                        }
                        Some(spanned(term.span, n))
                    },
                    None => None,
                }
            },
            Term::Let { bind, body } => {
                let b2 = match self.process_bind(bind) {
                    Some(v) => v,
                    None => {
                        return None;
                    },
                };
                let t2 = match self.process_term(body) {
                    Some(v) => v,
                    None => {
                        return None;
                    },
                };
                let n = Term::Let { bind: b2, body: t2 };
                proof {
                    lemma_term_view(&n);
                }
                Some(spanned(term.span, n))
            },
            Term::Cons { cons, body } => {
                match self.process_term(body) {
                    Some(b2) => {
                        let n = Term::Cons { cons: cons.clone(), body: b2 };
                        proof {
                            lemma_term_view(&n);
                        }
                        Some(spanned(term.span, n))
                    },
                    None => None,
                }
            },
            Term::NativeCons(_) => Some(share(term)),
            Term::App(f, x) => {
                let f2 = match self.process_term(f) {
                    Some(v) => v,
                    None => {
                        return None;
                    },
                };
                let x2 = match self.process_term(x) {
                    Some(v) => v,
                    None => {
                        return None;
                    },
                };
                let n = Term::App(f2, x2);
                proof {
                    lemma_term_view(&n);
                }
                Some(spanned(term.span, n))
            },
            Term::Func { params, body } => self.process_func(term.span, clone_names(params), body),
        }
    }

    /// Brings a command into surface form.
    pub fn process_command(&mut self, command: &Command) -> (r: Option<Command>)
        ensures
            match r {
                Some(c) => an_command(command@) == Some(c@),
                None => an_command(command@) is None,
            },
    {
        match command {
            Command::TermEval(t) => match self.process_term(t) {
                Some(t2) => Some(Command::TermEval(t2)),
                None => None,
            },
            Command::TermDef(b) => match self.process_bind(b) {
                Some(b2) => Some(Command::TermDef(b2)),
                None => None,
            },
            Command::Config { name, val } => Some(
                Command::Config { name: name.clone(), val: clone_config(val) },
            ),
            Command::TypeDef { name, cons_list, arity } => {
                let mut out: Vec<(String, SpanType)> = Vec::new();
                let mut i: usize = 0;
                while i < cons_list.len()
                    invariant
                        i <= cons_list@.len(),
                        out@.len() == i,
                        forall|j: int|
                            0 <= j < i ==> (#[trigger] out@[j]).0@ == cons_list@[j].0@
                                && out@[j].1@ == cons_list@[j].1@,
                    decreases cons_list@.len() - i,
                {
                    out.push((cons_list[i].0.clone(), self.process_type(&cons_list[i].1)));
                    i = i + 1;
                }
                assert(crate::language::cons_list_view(out@) =~= crate::language::cons_list_view(
                    cons_list@,
                ));
                Some(Command::TypeDef { name: name.clone(), cons_list: out, arity: *arity })
            },
            Command::TypeAlias { name, def } => Some(
                Command::TypeAlias { name: name.clone(), def: self.process_type(def) },
            ),
            Command::TypeDeclare { name, ty } => Some(
                Command::TypeDeclare { name: name.clone(), ty: self.process_type(ty) },
            ),
        }
    }

    /// Brings the commands of a program into surface form; `None` where a
    /// command is refused.
    #[verifier::loop_isolation(false)]
    pub fn process_program(&mut self, program: &Vec<DecoratedCommand>) -> (r: Option<
        Vec<DecoratedCommand>,
    >)
        ensures
            match r {
                Some(p) => add_native(program_view(program@)) == Some(program_view(p@)),
                None => add_native(program_view(program@)) is None,
            },
    {
        let ghost rs = an_commands(program_view(program@));
        let mut out: Vec<DecoratedCommand> = Vec::new();
        let mut i: usize = 0;
        while i < program.len()
            invariant
                i <= program@.len(),
                out@.len() == i,
                forall|j: int| 0 <= j < i ==> (#[trigger] rs[j]) == Some(out@[j]@),
            decreases program@.len() - i,
        {
            match self.process_command(&program[i].command.content) {
                Some(c) => {
                    out.push(
                        DecoratedCommand {
                            command: spanned(program[i].command.span, c),
                            decos: clone_names(&program[i].decos),
                        },
                    );
                },
                None => {
                    assert(rs[i as int] is None);
                    return None;
                },
            }
            i = i + 1;
        }
        assert(program_view(out@) =~= unwrap_all(rs));
        Some(out)
    }
}

} // verus!
