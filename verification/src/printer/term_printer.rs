//! Terms, bindings, commands and programs as documents and as text.
//!
//! Parentheses follow the operator table of the parser: the operand of a
//! prefix operator is put in parentheses where its operator binds less
//! tightly, the left operand of an infix operator likewise, and the right
//! operand also where it binds equally tightly.

use vstd::prelude::*;
use pretty::RcDoc;
use crate::language::{
    Term, TermModel, SpanTerm, STerm, Bind, BindModel, BindTerm, BindTermModel, SpanPattern,
    SPattern, CaseSeq, Command, CommandModel, ConfigVal, ConfigValModel, DecoratedCommand,
    ProgramModel, program_view, Type, TypeModel, SpanType, SType, nodes_view, cases_view,
    cons_list_view, lemma_term_view, lemma_bind_view, lemma_type_view,
};
use crate::text::{names_view, join, join_names, lemma_join_push, int_text, i32_to_string};
use crate::printer::doc::{
    DocModel, doc_of, docs_of, rendered, doc_text, doc_append, doc_group, doc_nest, doc_union,
    doc_intersperse, rc_text, rc_line, rc_hardline, rc_append, rc_group, rc_nest, rc_union,
    rc_intersperse, rc_clone, rc_render,
};
use crate::printer::type_printer::{type_text, type_to_string_at};
use crate::printer::pattern_printer::{pattern_text, pattern_to_string_at};

verus! {

/// The priority of an operator used with `arity` operands, as in the
/// operator table; `None` for a name that is no operator.
pub open spec fn op_pri(op: Seq<char>, arity: nat) -> Option<nat> {
    if op == "-"@ {
        if arity == 1 {
            Some(20)
        } else {
            Some(5)
        }
    } else if op == "not"@ {
        Some(3)
    } else if op == "*"@ || op == "/"@ {
        Some(10)
    } else if op == "+"@ {
        Some(5)
    } else if op == "=="@ || op == "<"@ || op == ">"@ || op == "<="@ || op == ">="@ {
        Some(4)
    } else if op == "&&"@ {
        Some(2)
    } else if op == "||"@ {
        Some(1)
    } else {
        None
    }
}

/// Whether a term can be printed: every operator in it is in the operator
/// table and has one or two operands.
pub open spec fn printable_term(t: TermModel) -> bool
    decreases t, 1nat,
{
    match t {
        TermModel::Int(_) | TermModel::Bool(_) | TermModel::Unit | TermModel::Var(_) | TermModel::NativeCons(_) => true,
        TermModel::If(a, b, d) => printable_term(a.content) && printable_term(b.content)
            && printable_term(d.content),
        TermModel::PrimOp { op, params } => (params.len() == 1 || params.len() == 2) && op_pri(
            op,
            params.len(),
        ) is Some && printable_terms(params),
        TermModel::App(f, x) => printable_term(f.content) && printable_term(x.content),
        TermModel::Func { params, body } => printable_term(body.content),
        TermModel::Tuple(ts) => printable_terms(ts),
        TermModel::Match { def, cases } => printable_term(def.content) && printable_cases(cases),
        TermModel::Cons { cons, body } => printable_term(body.content),
        TermModel::Let { bind, body } => printable_bind(bind.content) && printable_term(
            body.content,
        ),
    }
}

/// Whether every term of a list can be printed.
pub open spec fn printable_terms(ts: Seq<STerm>) -> bool
    decreases ts, 1nat,
{
    forall|i: int| 0 <= i < ts.len() ==> printable_term((#[trigger] ts[i]).content)
}

/// Whether every branch of a case list can be printed.
pub open spec fn printable_cases(cases: CaseSeq) -> bool
    decreases cases, 1nat,
{
    forall|i: int| 0 <= i < cases.len() ==> printable_term((#[trigger] cases[i]).1.content)
}

/// Whether the definition of a binding can be printed.
pub open spec fn printable_bind(b: BindModel) -> bool
    decreases b, 0nat,
{
    match b.bind {
        BindTermModel::NormalBind(d) => printable_term(d.content),
        BindTermModel::FuncBind(cases) => printable_cases(cases),
    }
}

/// The priority of a term as an operand: that of its operator, and the
/// largest index for a term that is no operator expression.
pub open spec fn term_pri(t: TermModel) -> nat {
    match t {
        TermModel::PrimOp { op, params } => match op_pri(op, params.len()) {
            Some(p) => p,
            None => 0,
        },
        _ => usize::MAX as nat,
    }
}

/// How tightly the outermost form of a term binds: the compound forms
/// least, then operators, then applications, then atoms.
pub open spec fn term_prec(t: TermModel) -> nat {
    match t {
        TermModel::If(_, _, _) | TermModel::Match { .. } | TermModel::Let { .. } | TermModel::Func { .. } => 0,
        TermModel::PrimOp { .. } => 1,
        TermModel::App(_, _) | TermModel::Cons { .. } => 2,
        _ => 3,
    }
}

/// Whether the text of a term ends in a compound form that would take up
/// what follows it: a match, or a compound form that ends in one.
pub open spec fn term_open(t: TermModel) -> bool
    decreases t,
{
    match t {
        TermModel::If(_, _, d) => term_open(d.content),
        TermModel::Match { .. } => true,
        TermModel::Let { bind, body } => term_open(body.content),
        TermModel::Func { params, body } => term_open(body.content),
        _ => false,
    }
}

/// A document in parentheses.
pub open spec fn paren(d: DocModel) -> DocModel {
    doc_append(doc_append(doc_text("("@), d), doc_text(")"@))
}

/// An operand of priority `pri` under an operator of priority `cur`: in
/// parentheses where it binds less tightly, or, for `strict`, equally.
pub open spec fn operand(d: DocModel, pri: nat, cur: nat, strict: bool) -> DocModel {
    if pri < cur || (strict && pri == cur) {
        paren(d)
    } else {
        d
    }
}

/// The document of a binary operator expression: two alternatives, one that
/// breaks behind the operator and one that breaks before it.
pub open spec fn binary_doc(op: Seq<char>, left: DocModel, right: DocModel) -> DocModel {
    doc_union(
        doc_group(
            doc_append(
                doc_group(doc_append(doc_append(left, DocModel::Line), doc_text(op))),
                doc_nest(doc_append(DocModel::Line, right), 2),
            ),
        ),
        doc_group(
            doc_append(
                doc_append(left, DocModel::Line),
                doc_group(doc_nest(doc_append(doc_append(doc_text(op), DocModel::Line), right), 2)),
            ),
        ),
    )
}

/// The document of `let` with its binding `head` and its `body`: `in` and
/// the body behind the binding, or `in` at the end of the binding and the
/// body below.
pub open spec fn let_doc(head: DocModel, body: DocModel) -> DocModel {
    doc_group(
        doc_union(
            doc_append(
                doc_append(head, DocModel::Line),
                doc_group(doc_nest(doc_append(doc_append(doc_text("in"@), DocModel::Line), body), 2)),
            ),
            doc_append(
                doc_group(doc_append(doc_append(head, DocModel::Line), doc_text("in"@))),
                doc_nest(doc_append(DocModel::Line, body), 2),
            ),
        ),
    )
}

/// The document of one match case: the pattern between `|` and `->`, and
/// the branch, which is put in parentheses where it ends in an open form
/// and another case follows.
pub open spec fn case_doc(p: SPattern, t: STerm, is_last: bool) -> DocModel
    decreases t, 2nat,
{
    let branch = if term_open(t.content) && !is_last {
        paren(term_doc(t.content, 0))
    } else {
        term_doc(t.content, 0)
    };
    doc_group(
        doc_nest(
            doc_append(
                doc_append(
                    doc_text("| "@ + pattern_text(p.content, 0) + " ->"@),
                    DocModel::Line,
                ),
                branch,
            ),
            2,
        ),
    )
}

/// `head`, and below it the documents of the cases.
pub open spec fn cases_docs(head: DocModel, cases: CaseSeq) -> Seq<DocModel>
    decreases cases, 3nat,
{
    Seq::new(
        cases.len() + 1,
        |i: int|
            if i == 0 {
                head
            } else if 0 < i <= cases.len() {
                case_doc(cases[i - 1].0, cases[i - 1].1, i == cases.len())
            } else {
                DocModel::Nil
            },
    )
}

/// The documents of the terms of a list.
pub open spec fn term_docs(ts: Seq<STerm>) -> Seq<DocModel>
    decreases ts, 3nat,
{
    Seq::new(
        ts.len(),
        |i: int|
            if 0 <= i < ts.len() {
                term_doc(ts[i].content, 0)
            } else {
                DocModel::Nil
            },
    )
}

/// The head of a binding: `let` or `let rec`, the name, the parameters,
/// and `=`.
pub open spec fn bind_head(b: BindModel) -> Seq<char> {
    let params = join(b.params, " "@);
    (if b.is_rec {
        "let rec"@
    } else {
        "let"@
    }) + " "@ + b.name + " "@ + params + (if params.len() == 0 {
        ""@
    } else {
        " "@
    }) + "="@
}

/// The document of a binding.
pub open spec fn bind_doc(b: BindModel) -> DocModel
    decreases b, 0nat,
{
    match b.bind {
        BindTermModel::NormalBind(d) => doc_group(
            doc_nest(
                doc_append(
                    doc_append(doc_text(bind_head(b)), DocModel::Line),
                    term_doc(d.content, 0),
                ),
                2,
            ),
        ),
        BindTermModel::FuncBind(cases) => doc_group(
            doc_intersperse(
                cases_docs(doc_text(bind_head(b) + " function"@), cases),
                DocModel::Hardline,
            ),
        ),
    }
}

/// The document of a term in a place that takes forms of precedence
/// `level` or above; a form that binds less tightly is put in parentheses.
pub open spec fn term_doc(t: TermModel, level: nat) -> DocModel
    decreases t, (if term_prec(t) < level {
        1nat
    } else {
        0nat
    }),
{
    if term_prec(t) < level {
        paren(term_doc(t, 0))
    } else {
        match t {
            TermModel::Unit => doc_text("()"@),
            TermModel::Int(i) => doc_text(int_text(i as int)),
            TermModel::Bool(b) => if b {
                doc_text("true"@)
            } else {
                doc_text("false"@)
            },
            TermModel::Var(name) => doc_text(name),
            TermModel::NativeCons(name) => doc_text(name),
            TermModel::Tuple(ts) => doc_append(
                doc_append(
                    doc_text("("@),
                    doc_nest(
                        doc_intersperse(
                            term_docs(ts),
                            doc_append(doc_text(","@), DocModel::Line),
                        ),
                        1,
                    ),
                ),
                doc_text(")"@),
            ),
            TermModel::App(f, x) => doc_group(
                doc_append(
                    term_doc(f.content, 2),
                    doc_nest(doc_append(DocModel::Line, term_doc(x.content, 3)), 2),
                ),
            ),
            TermModel::Cons { cons, body } => doc_group(
                doc_append(doc_append(doc_text(cons), doc_text(" "@)), term_doc(body.content, 3)),
            ),
            TermModel::PrimOp { op, params } => {
                let cur = term_pri(t);
                if params.len() == 1 {
                    doc_group(
                        doc_append(
                            doc_append(doc_text(op), DocModel::Line),
                            operand(
                                term_doc(params[0].content, 1),
                                term_pri(params[0].content),
                                cur,
                                false,
                            ),
                        ),
                    )
                } else if params.len() == 2 {
                    binary_doc(
                        op,
                        operand(
                            term_doc(params[0].content, 1),
                            term_pri(params[0].content),
                            cur,
                            false,
                        ),
                        operand(
                            term_doc(params[1].content, 1),
                            term_pri(params[1].content),
                            cur,
                            true,
                        ),
                    )
                } else {
                    DocModel::Nil
                }
            },
            TermModel::If(c, a, b) => doc_group(
                doc_nest(
                    doc_append(
                        doc_append(
                            doc_append(
                                doc_append(
                                    doc_append(
                                        doc_append(
                                            doc_append(
                                                doc_text("if "@),
                                                term_doc(c.content, 0),
                                            ),
                                            DocModel::Line,
                                        ),
                                        doc_text("then "@),
                                    ),
                                    term_doc(a.content, 0),
                                ),
                                DocModel::Line,
                            ),
                            doc_text("else "@),
                        ),
                        term_doc(b.content, 0),
                    ),
                    2,
                ),
            ),
            TermModel::Match { def, cases } => doc_group(
                doc_intersperse(
                    cases_docs(
                        doc_group(
                            doc_append(
                                doc_append(doc_text("match "@), term_doc(def.content, 0)),
                                doc_text(" with"@),
                            ),
                        ),
                        cases,
                    ),
                    DocModel::Hardline,
                ),
            ),
            TermModel::Let { bind, body } => let_doc(
                bind_doc(bind.content),
                term_doc(body.content, 0),
            ),
            TermModel::Func { params, body } => doc_nest(
                doc_append(
                    doc_group(
                        doc_append(
                            doc_text("fun "@ + join(params, " "@) + " ->"@),
                            DocModel::Line,
                        ),
                    ),
                    term_doc(body.content, 0),
                ),
                2,
            ),
        }
    }
}

// ---------------------------------------------------------------------------

fn text(s: &str) -> (d: RcDoc<'static, ()>)
    ensures
        doc_of(d) == doc_text(s@),
{
    rc_text(String::from_str(s))
}

fn parens(d: RcDoc<'static, ()>) -> (r: RcDoc<'static, ()>)
    ensures
        doc_of(r) == paren(doc_of(d)),
{
    rc_append(rc_append(text("("), d), text(")"))
}

fn is_op(op: &String, lit: &str) -> (b: bool)
    ensures
        b == (op@ == lit@),
{
    *op == String::from_str(lit)
}

/// The priority of an operator used with `arity` operands.
pub fn op_priority(op: &String, arity: usize) -> (r: Option<usize>)
    ensures
        match r {
            Some(p) => op_pri(op@, arity as nat) == Some(p as nat),
            None => op_pri(op@, arity as nat) is None,
        },
{
    if is_op(op, "-") {
        if arity == 1 {
            Some(20)
        } else {
            Some(5)
        }
    } else if is_op(op, "not") {
        Some(3)
    } else if is_op(op, "*") || is_op(op, "/") {
        Some(10)
    } else if is_op(op, "+") {
        Some(5)
    } else if is_op(op, "==") || is_op(op, "<") || is_op(op, ">") || is_op(op, "<=") || is_op(
        op,
        ">=",
    ) {
        Some(4)
    } else if is_op(op, "&&") {
        Some(2)
    } else if is_op(op, "||") {
        Some(1)
    } else {
        None
    }
}

fn term_priority(t: &Term) -> (p: usize)
    ensures
        p == term_pri(t@),
{
    proof {
        lemma_term_view(t);
    }
    match t {
        Term::PrimOp { op, params } => match op_priority(op, params.len()) {
            Some(p) => p,
            None => 0,
        },
        _ => usize::MAX,
    }
}

fn term_prec_of(t: &Term) -> (p: u8)
    ensures
        p == term_prec(t@),
{
    proof {
        lemma_term_view(t);
    }
    match t {
        Term::If(_, _, _) | Term::Match { .. } | Term::Let { .. } | Term::Func { .. } => 0,
        Term::PrimOp { .. } => 1,
        Term::App(_, _) | Term::Cons { .. } => 2,
        _ => 3,
    }
}

fn term_is_open(t: &Term) -> (b: bool)
    ensures
        b == term_open(t@),
    decreases *t,
{
    proof {
        lemma_term_view(t);
    }
    match t {
        Term::If(_, _, d) => term_is_open(&d.content),
        Term::Match { .. } => true,
        Term::Let { bind, body } => term_is_open(&body.content),
        Term::Func { params, body } => term_is_open(&body.content),
        _ => false,
    }
}

fn operand_doc(d: RcDoc<'static, ()>, pri: usize, cur: usize, strict: bool) -> (r: RcDoc<
    'static,
    (),
>)
    ensures
        doc_of(r) == operand(doc_of(d), pri as nat, cur as nat, strict),
{
    if pri < cur || (strict && pri == cur) {
        parens(d)
    } else {
        d
    }
}

fn binary_to_doc(op: &String, left: RcDoc<'static, ()>, right: RcDoc<'static, ()>) -> (r: RcDoc<
    'static,
    (),
>)
    ensures
        doc_of(r) == binary_doc(op@, doc_of(left), doc_of(right)),
{
    let first = rc_group(
        rc_append(
            rc_group(rc_append(rc_append(rc_clone(&left), rc_line()), rc_text(op.clone()))),
            rc_nest(rc_append(rc_line(), rc_clone(&right)), 2),
        ),
    );
    let second = rc_group(
        rc_append(
            rc_append(left, rc_line()),
            rc_group(rc_nest(rc_append(rc_append(rc_text(op.clone()), rc_line()), right), 2)),
        ),
    );
    rc_union(first, second)
}

fn let_to_doc(head: RcDoc<'static, ()>, body: RcDoc<'static, ()>) -> (r: RcDoc<'static, ()>)
    ensures
        doc_of(r) == let_doc(doc_of(head), doc_of(body)),
{
    let first = rc_append(
        rc_append(rc_clone(&head), rc_line()),
        rc_group(rc_nest(rc_append(rc_append(text("in"), rc_line()), rc_clone(&body)), 2)),
    );
    let second = rc_append(
        rc_group(rc_append(rc_append(head, rc_line()), text("in"))),
        rc_nest(rc_append(rc_line(), body), 2),
    );
    rc_group(rc_union(first, second))
}

impl Term {
    /// Whether the term can be printed.
    #[verifier::loop_isolation(false)]
    pub fn is_printable(&self) -> (b: bool)
        ensures
            b == printable_term(self@),
        decreases *self, 1nat,
    {
        proof {
            lemma_term_view(self);
        }
        match self {
            Term::Int(_) | Term::Bool(_) | Term::Unit | Term::Var(_) | Term::NativeCons(_) => true,
            Term::If(a, b, d) => a.content.is_printable() && b.content.is_printable()
                && d.content.is_printable(),
            Term::PrimOp { op, params } => {
                if !(params.len() == 1 || params.len() == 2) {
                    return false;
                }
                if op_priority(op, params.len()).is_none() {
                    return false;
                }
                terms_printable(params)
            },
            Term::App(f, x) => f.content.is_printable() && x.content.is_printable(),
            Term::Func { params, body } => body.content.is_printable(),
            Term::Tuple(ts) => terms_printable(ts),
            Term::Match { def, cases } => def.content.is_printable() && cases_printable(cases),
            Term::Cons { cons, body } => body.content.is_printable(),
            Term::Let { bind, body } => bind.content.is_printable() && body.content.is_printable(),
        }
    }

    /// The document of the term at a precedence level.
    #[verifier::loop_isolation(false)]
    pub fn to_doc_at(&self, level: u8) -> (d: RcDoc<'static, ()>)
        requires
            printable_term(self@),
        ensures
            doc_of(d) == term_doc(self@, level as nat),
        decreases *self, (if term_prec(self@) < level {
            1nat
        } else {
            0nat
        }),
    {
        proof {
            lemma_term_view(self);
            reveal_with_fuel(printable_term, 2);
            reveal_with_fuel(printable_terms, 2);
        }
        if term_prec_of(self) < level {
            return parens(self.to_doc_at(0));
        }
        match self {
            Term::Unit => text("()"),
            Term::Int(i) => rc_text(i32_to_string(*i)),
            Term::Bool(b) => if *b {
                text("true")
            } else {
                text("false")
            },
            Term::Var(name) => rc_text(name.clone()),
            Term::NativeCons(name) => rc_text(name.clone()),
            Term::Tuple(ts) => {
                let mut docs: Vec<RcDoc<'static, ()>> = Vec::new();
                let mut i: usize = 0;
                while i < ts.len()
                    invariant
                        i <= ts@.len(),
                        docs@.len() == i,
                        forall|j: int|
                            0 <= j < i ==> doc_of(#[trigger] docs@[j]) == term_doc(
                                ts@[j].content@,
                                0,
                            ),
                    decreases ts@.len() - i,
                {
                    assert(printable_term(nodes_view(ts@)[i as int].content));
                    docs.push(ts[i].content.to_doc_at(0));
                    i = i + 1;
                }
                assert(docs_of(docs@) =~= term_docs(nodes_view(ts@)));
                let inner = rc_nest(rc_intersperse(docs, rc_append(text(","), rc_line())), 1);
                rc_append(rc_append(text("("), inner), text(")"))
            },
            Term::App(f, x) => rc_group(
                rc_append(
                    f.content.to_doc_at(2),
                    rc_nest(rc_append(rc_line(), x.content.to_doc_at(3)), 2),
                ),
            ),
            Term::Cons { cons, body } => rc_group(
                rc_append(rc_append(rc_text(cons.clone()), text(" ")), body.content.to_doc_at(3)),
            ),
            Term::PrimOp { op, params } => {
                let cur = term_priority(self);
                if params.len() == 1 {
                    assert(printable_term(nodes_view(params@)[0].content));
                    let x = operand_doc(
                        params[0].content.to_doc_at(1),
                        term_priority(&params[0].content),
                        cur,
                        false,
                    );
                    rc_group(rc_append(rc_append(rc_text(op.clone()), rc_line()), x))
                } else {
                    assert(printable_term(nodes_view(params@)[0].content));
                    assert(printable_term(nodes_view(params@)[1].content));
                    let left = operand_doc(
                        params[0].content.to_doc_at(1),
                        term_priority(&params[0].content),
                        cur,
                        false,
                    );
                    let right = operand_doc(
                        params[1].content.to_doc_at(1),
                        term_priority(&params[1].content),
                        cur,
                        true,
                    );
                    binary_to_doc(op, left, right)
                }
            },
            Term::If(c, a, b) => {
                let d = rc_append(text("if "), c.content.to_doc_at(0));
                let d = rc_append(d, rc_line());
                let d = rc_append(d, text("then "));
                let d = rc_append(d, a.content.to_doc_at(0));
                let d = rc_append(d, rc_line());
                let d = rc_append(d, text("else "));
                let d = rc_append(d, b.content.to_doc_at(0));
                rc_group(rc_nest(d, 2))
            },
            Term::Match { def, cases } => {
                let head = rc_group(
                    rc_append(rc_append(text("match "), def.content.to_doc_at(0)), text(" with")),
                );
                let docs = cases_to_docs(head, cases);
                rc_group(rc_intersperse(docs, rc_hardline()))
            },
            Term::Let { bind, body } => let_to_doc(
                bind.content.to_doc(),
                body.content.to_doc_at(0),
            ),
            Term::Func { params, body } => {
                let mut head = String::from_str("fun ");
                head.append(join_names(params, " ").as_str());
                head.append(" ->");
                rc_nest(
                    rc_append(rc_group(rc_append(rc_text(head), rc_line())), body.content.to_doc_at(0)),
                    2,
                )
            },
        }
    }

    /// The text of the term, laid out for a page of the given width.
    pub fn to_pretty(&self, width: usize) -> (s: String)
        requires
            printable_term(self@),
        ensures
            s@ == rendered(term_doc(self@, 0), width as nat),
    {
        rc_render(&self.to_doc_at(0), width)
    }
}

/// Whether every term of a list can be printed.
#[verifier::loop_isolation(false)]
fn terms_printable(ts: &Vec<SpanTerm>) -> (b: bool)
    ensures
        b == printable_terms(nodes_view(ts@)),
    decreases *ts, 1nat,
{
    let mut i: usize = 0;
    while i < ts.len()
        invariant
            i <= ts@.len(),
            forall|j: int| 0 <= j < i ==> printable_term((#[trigger] nodes_view(ts@)[j]).content),
        decreases ts@.len() - i,
    {
        if !ts[i].content.is_printable() {
            assert(!printable_term(nodes_view(ts@)[i as int].content));
            return false;
        }
        i = i + 1;
    }
    true
}

/// Whether every branch of a case list can be printed.
#[verifier::loop_isolation(false)]
fn cases_printable(cases: &Vec<(SpanPattern, SpanTerm)>) -> (b: bool)
    ensures
        b == printable_cases(cases_view(cases@)),
    decreases *cases, 1nat,
{
    let mut i: usize = 0;
    while i < cases.len()
        invariant
            i <= cases@.len(),
            forall|j: int|
                0 <= j < i ==> printable_term((#[trigger] cases_view(cases@)[j]).1.content),
        decreases cases@.len() - i,
    {
        if !cases[i].1.content.is_printable() {
            assert(!printable_term(cases_view(cases@)[i as int].1.content));
            return false;
        }
        i = i + 1;
    }
    true
}

/// `head`, and below it the documents of the cases.
#[verifier::loop_isolation(false)]
fn cases_to_docs(head: RcDoc<'static, ()>, cases: &Vec<(SpanPattern, SpanTerm)>) -> (docs: Vec<
    RcDoc<'static, ()>,
>)
    requires
        printable_cases(cases_view(cases@)),
    ensures
        docs_of(docs@) == cases_docs(doc_of(head), cases_view(cases@)),
    decreases *cases, 3nat,
{
    let ghost hm = doc_of(head);
    let ghost want = cases_docs(hm, cases_view(cases@));
    let mut docs: Vec<RcDoc<'static, ()>> = Vec::new();
    docs.push(head);
    let mut i: usize = 0;
    while i < cases.len()
        invariant
            i <= cases@.len(),
            docs@.len() == i + 1,
            forall|j: int| 0 <= j < i + 1 ==> doc_of(#[trigger] docs@[j]) == want[j],
        decreases cases@.len() - i,
    {
        assert(printable_term(cases_view(cases@)[i as int].1.content));
        let is_last = i + 1 == cases.len();
        let branch = if term_is_open(&cases[i].1.content) && !is_last {
            parens(cases[i].1.content.to_doc_at(0))
        } else {
            cases[i].1.content.to_doc_at(0)
        };
        let mut head = String::from_str("| ");
        head.append(pattern_to_string_at(&cases[i].0.content, 0).as_str());
        head.append(" ->");
        docs.push(rc_group(rc_nest(rc_append(rc_append(rc_text(head), rc_line()), branch), 2)));
        i = i + 1;
    }
    assert(docs_of(docs@) =~= want);
    docs
}

impl Bind {
    /// Whether the definition of the binding can be printed.
    pub fn is_printable(&self) -> (b: bool)
        ensures
            b == printable_bind(self@),
        decreases *self, 0nat,
    {
        proof {
            lemma_bind_view(self);
        }
        match &self.bind {
            BindTerm::NormalBind(d) => d.content.is_printable(),
            BindTerm::FuncBind(cases) => cases_printable(cases),
        }
    }

    fn head(&self) -> (s: String)
        ensures
            s@ == bind_head(self@),
    {
        proof {
            lemma_bind_view(self);
        }
        let params = join_names(&self.params, " ");
        let mut out = if self.is_rec {
            String::from_str("let rec")
        } else {
            String::from_str("let")
        };
        out.append(" ");
        out.append(self.name.as_str());
        out.append(" ");
        out.append(params.as_str());
        if params.as_str().unicode_len() == 0 {
            out.append("");
        } else {
            out.append(" ");
        }
        out.append("=");
        out
    }

    /// The document of the binding.
    pub fn to_doc(&self) -> (d: RcDoc<'static, ()>)
        requires
            printable_bind(self@),
        ensures
            doc_of(d) == bind_doc(self@),
        decreases *self, 0nat,
    {
        proof {
            lemma_bind_view(self);
        }
        match &self.bind {
            BindTerm::NormalBind(d) => rc_group(
                rc_nest(rc_append(rc_append(rc_text(self.head()), rc_line()), d.content.to_doc_at(0)), 2),
            ),
            BindTerm::FuncBind(cases) => {
                let mut head = self.head();
                head.append(" function");
                let docs = cases_to_docs(rc_text(head), cases);
                rc_group(rc_intersperse(docs, rc_hardline()))
            },
        }
    }

    /// The text of the binding, laid out for a page of the given width.
    pub fn to_pretty(&self, width: usize) -> (s: String)
        requires
            printable_bind(self@),
        ensures
            s@ == rendered(bind_doc(self@), width as nat),
    {
        rc_render(&self.to_doc(), width)
    }
}

// ---------------------------------------------------------------------------
// Commands
// ---------------------------------------------------------------------------

/// The text of a configuration value; a string stands in double quotes.
pub open spec fn config_text(v: ConfigValModel) -> Seq<char> {
    match v {
        ConfigValModel::Int(i) => int_text(i as int),
        ConfigValModel::Bool(b) => if b {
            "true"@
        } else {
            "false"@
        },
        ConfigValModel::String(s) => "\""@ + s + "\""@,
    }
}

/// What a type scheme quantifies over: the type below its quantifier.
pub open spec fn scheme_body(t: TypeModel) -> TypeModel {
    match t {
        TypeModel::Poly { vars, body } => body.content,
        _ => t,
    }
}

/// A constructor as it is declared: its name, and `of` with its payload
/// where its scheme is an arrow.
pub open spec fn cons_text(d: (Seq<char>, SType)) -> Seq<char> {
    match scheme_body(d.1.content) {
        TypeModel::Arr(payload, _) => d.0 + " of "@ + type_text(payload.content, 0),
        _ => d.0,
    }
}

/// The declarations of the constructors of a list.
pub open spec fn cons_texts(cons_list: Seq<(Seq<char>, SType)>) -> Seq<Seq<char>> {
    Seq::new(cons_list.len(), |i: int| cons_text(cons_list[i]))
}

/// The head of a type definition: `type`, the variables that the scheme of
/// the first constructor quantifies, the name, and `=`.
pub open spec fn typedef_head(name: Seq<char>, first: TypeModel) -> Seq<char> {
    match first {
        TypeModel::Poly { vars, body } => "type "@ + join(vars, " "@) + " "@ + name + " ="@,
        _ => "type "@ + name + " ="@,
    }
}

/// `head`, and behind it the texts of `parts` as documents.
pub open spec fn head_and_texts(head: Seq<char>, parts: Seq<Seq<char>>) -> Seq<DocModel> {
    Seq::new(
        parts.len() + 1,
        |i: int|
            if i == 0 {
                doc_text(head)
            } else {
                doc_text(parts[i - 1])
            },
    )
}

/// Whether a command can be printed: its term or binding can, a type
/// definition declares a constructor, and a quantified alias quantifies a
/// variable.
pub open spec fn printable_command(c: CommandModel) -> bool {
    match c {
        CommandModel::TermDef(b) => printable_bind(b.content),
        CommandModel::TermEval(t) => printable_term(t.content),
        CommandModel::TypeDef { name, cons_list, arity } => cons_list.len() > 0,
        CommandModel::TypeAlias { name, def } => match def.content {
            TypeModel::Poly { vars, body } => vars.len() > 0,
            _ => true,
        },
        _ => true,
    }
}

/// The document of a command.
pub open spec fn command_doc(c: CommandModel) -> DocModel {
    match c {
        CommandModel::Config { name, val } => doc_text("@"@ + name + " = "@ + config_text(val)),
        CommandModel::TermDef(b) => bind_doc(b.content),
        CommandModel::TermEval(t) => term_doc(t.content, 0),
        CommandModel::TypeDeclare { name, ty } => doc_text(
            "val "@ + name + ": "@ + type_text(scheme_body(ty.content), 0),
        ),
        CommandModel::TypeAlias { name, def } => match def.content {
            TypeModel::Poly { vars, body } => doc_text(
                "type "@ + join(vars, " "@) + " "@ + name + " = "@ + type_text(body.content, 0),
            ),
            _ => doc_text("type "@ + name + " = "@ + type_text(def.content, 0)),
        },
        CommandModel::TypeDef { name, cons_list, arity } => {
            let head = typedef_head(name, cons_list[0].1.content);
            doc_union(
                doc_text(head + " "@ + join(cons_texts(cons_list), " | "@)),
                doc_intersperse(
                    head_and_texts(head, cons_texts(cons_list)),
                    doc_append(DocModel::Hardline, doc_text("| "@)),
                ),
            )
        },
    }
}

impl ConfigVal {
    /// The text of the value.
    pub fn to_string(&self) -> (s: String)
        ensures
            s@ == config_text(self@),
    {
        match self {
            ConfigVal::Int(i) => i32_to_string(*i),
            ConfigVal::Bool(b) => if *b {
                String::from_str("true")
            } else {
                String::from_str("false")
            },
            ConfigVal::String(s) => {
                let mut out = String::from_str("\"");
                out.append(s.as_str());
                out.append("\"");
                out
            },
        }
    }
}

fn cons_to_string(d: &(String, SpanType)) -> (s: String)
    ensures
        s@ == cons_text((d.0@, d.1@)),
{
    proof {
        lemma_type_view(&d.1.content);
    }
    let body: &Type = match &d.1.content {
        Type::Poly { vars, body } => &body.content,
        other => other,
    };
    proof {
        lemma_type_view(body);
    }
    match body {
        Type::Arr(payload, _) => {
            let mut out = d.0.clone();
            out.append(" of ");
            out.append(type_to_string_at(&payload.content, 0).as_str());
            out
        },
        _ => d.0.clone(),
    }
}

impl Command {
    /// Whether the command can be printed.
    pub fn is_printable(&self) -> (b: bool)
        ensures
            b == printable_command(self@),
    {
        match self {
            Command::TermDef(b) => b.content.is_printable(),
            Command::TermEval(t) => t.content.is_printable(),
            Command::TypeDef { name, cons_list, arity } => cons_list.len() > 0,
            Command::TypeAlias { name, def } => {
                proof {
                    lemma_type_view(&def.content);
                }
                match &def.content {
                    Type::Poly { vars, body } => vars.len() > 0,
                    _ => true,
                }
            },
            _ => true,
        }
    }

    /// The document of the command.
    pub fn to_doc(&self) -> (d: RcDoc<'static, ()>)
        requires
            printable_command(self@),
        ensures
            doc_of(d) == command_doc(self@),
    {
        match self {
            Command::Config { name, val } => {
                let mut out = String::from_str("@");
                out.append(name.as_str());
                out.append(" = ");
                out.append(val.to_string().as_str());
                rc_text(out)
            },
            Command::TermDef(b) => b.content.to_doc(),
            Command::TermEval(t) => t.content.to_doc_at(0),
            Command::TypeDeclare { name, ty } => {
                proof {
                    lemma_type_view(&ty.content);
                }
                let body: &Type = match &ty.content {
                    Type::Poly { vars, body } => &body.content,
                    other => other,
                };
                let mut out = String::from_str("val ");
                out.append(name.as_str());
                out.append(": ");
                out.append(type_to_string_at(body, 0).as_str());
                rc_text(out)
            },
            Command::TypeAlias { name, def } => {
                proof {
                    lemma_type_view(&def.content);
                }
                match &def.content {
                    Type::Poly { vars, body } => {
                        let mut out = String::from_str("type ");
                        out.append(join_names(vars, " ").as_str());
                        out.append(" ");
                        out.append(name.as_str());
                        out.append(" = ");
                        out.append(type_to_string_at(&body.content, 0).as_str());
                        rc_text(out)
                    },
                    other => {
                        let mut out = String::from_str("type ");
                        out.append(name.as_str());
                        out.append(" = ");
                        out.append(type_to_string_at(other, 0).as_str());
                        rc_text(out)
                    },
                }
            },
            Command::TypeDef { name, cons_list, arity } => {
                let ghost ds = cons_list_view(cons_list@);
                proof {
                    lemma_type_view(&cons_list@[0].1.content);
                }
                let mut head = String::from_str("type ");
                match &cons_list[0].1.content {
                    Type::Poly { vars, body } => {
                        head.append(join_names(vars, " ").as_str());
                        head.append(" ");
                    },
                    _ => {},
                }
                head.append(name.as_str());
                head.append(" =");
                assert(head@ =~= typedef_head(name@, ds[0].1.content));
                let mut line = head.clone();
                line.append(" ");
                let mut list = String::new();
                let mut docs: Vec<RcDoc<'static, ()>> = Vec::new();
                docs.push(rc_text(head.clone()));
                let ghost texts = cons_texts(ds);
                let ghost want = head_and_texts(head@, texts);
                let mut i: usize = 0;
                assert(texts.take(0) =~= Seq::<Seq<char>>::empty());
                while i < cons_list.len()
                    invariant
                        i <= cons_list@.len(),
                        ds == cons_list_view(cons_list@),
                        texts == cons_texts(ds),
                        want == head_and_texts(head@, texts),
                        list@ == join(texts.take(i as int), " | "@),
                        docs@.len() == i + 1,
                        forall|j: int| 0 <= j < i + 1 ==> doc_of(#[trigger] docs@[j]) == want[j],
                    decreases cons_list@.len() - i,
                {
                    let part = cons_to_string(&cons_list[i]);
                    proof {
                        assert(part@ == texts[i as int]);
                        lemma_join_push(texts.take(i as int), " | "@, part@);
                        assert(texts.take(i + 1) =~= texts.take(i as int).push(part@));
                    }
                    if i > 0 {
                        list.append(" | ");
                    }
                    list.append(part.as_str());
                    assert(Seq::<char>::empty() + part@ =~= part@);
                    docs.push(rc_text(part));
                    i = i + 1;
                }
                assert(texts.take(cons_list@.len() as int) =~= texts);
                assert(docs_of(docs@) =~= want);
                line.append(list.as_str());
                rc_union(
                    rc_text(line),
                    rc_intersperse(docs, rc_append(rc_hardline(), text("| "))),
                )
            },
        }
    }

    /// The text of the command, laid out for a page of the given width.
    pub fn to_pretty(&self, width: usize) -> (s: String)
        requires
            printable_command(self@),
        ensures
            s@ == rendered(command_doc(self@), width as nat),
    {
        rc_render(&self.to_doc(), width)
    }
}

// ---------------------------------------------------------------------------
// Programs
// ---------------------------------------------------------------------------

/// Whether every command of a program can be printed.
pub open spec fn printable_program(p: ProgramModel) -> bool {
    forall|i: int| 0 <= i < p.len() ==> printable_command((#[trigger] p[i]).command.content)
}

/// The lines of a program: the text of each command, with an empty line
/// behind each binding that another command follows.
pub open spec fn program_lines(p: ProgramModel, width: nat) -> Seq<Seq<char>>
    decreases p.len(),
{
    if p.len() == 0 {
        Seq::empty()
    } else {
        let before = program_lines(p.drop_last(), width);
        let gap = if p.len() >= 2 && p[p.len() - 2].command.content is TermDef {
            seq![Seq::<char>::empty()]
        } else {
            Seq::empty()
        };
        before + gap + seq![rendered(command_doc(p.last().command.content), width)]
    }
}

/// The text of a program at a page width.
pub open spec fn program_text(p: ProgramModel, width: nat) -> Seq<char> {
    join(program_lines(p, width), "\n"@)
}

/// The printer of programs.
pub struct ProgramPrinter;

impl ProgramPrinter {
    /// Whether every command of a program can be printed.
    pub fn is_printable(program: &Vec<DecoratedCommand>) -> (b: bool)
        ensures
            b == printable_program(program_view(program@)),
    {
        let mut i: usize = 0;
        while i < program.len()
            invariant
                i <= program@.len(),
                forall|j: int|
                    0 <= j < i ==> printable_command(
                        (#[trigger] program_view(program@)[j]).command.content,
                    ),
            decreases program@.len() - i,
        {
            if !program[i].command.content.is_printable() {
                assert(!printable_command(program_view(program@)[i as int].command.content));
                return false;
            }
            i = i + 1;
        }
        true
    }

    /// The text of a program: its commands laid out for a page of the given
    /// width, one below the other, with an empty line behind each binding.
    pub fn pretty_print(program: &Vec<DecoratedCommand>, width: usize) -> (s: String)
        requires
            printable_program(program_view(program@)),
        ensures
            s@ == program_text(program_view(program@), width as nat),
    {
        let ghost pm = program_view(program@);
        let mut lines: Vec<String> = Vec::new();
        let mut is_pre_bind = false;
        let mut i: usize = 0;
        assert(pm.take(0) =~= Seq::empty());
        assert(names_view(lines@) =~= Seq::<Seq<char>>::empty());
        while i < program.len()
            invariant
                i <= program@.len(),
                pm == program_view(program@),
                printable_program(pm),
                names_view(lines@) == program_lines(pm.take(i as int), width as nat),
                is_pre_bind == (i > 0 && pm[i - 1].command.content is TermDef),
            decreases program@.len() - i,
        {
            let ghost before = names_view(lines@);
            proof {
                assert(pm.take(i + 1).drop_last() =~= pm.take(i as int));
                assert(pm.take(i + 1).last() == pm[i as int]);
                assert(printable_command(pm[i as int].command.content));
            }
            if is_pre_bind {
                lines.push(String::new());
            }
            let ghost mid = names_view(lines@);
            let line = program[i].command.content.to_pretty(width);
            let ghost lm = line@;
            lines.push(line);
            proof {
                let gap = if is_pre_bind {
                    seq![Seq::<char>::empty()]
                } else {
                    Seq::<Seq<char>>::empty()
                };
                assert(mid =~= before + gap);
                assert(names_view(lines@) =~= before + gap + seq![lm]);
                if i > 0 {
                    assert(pm.take(i + 1)[i - 1] == pm[i - 1]);
                }
            }
            is_pre_bind = match &program[i].command.content {
                Command::TermDef(_) => true,
                _ => false,
            };
            i = i + 1;
        }
        assert(pm.take(program@.len() as int) =~= pm);
        join_names(&lines, "\n")
    }
}

} // verus!
