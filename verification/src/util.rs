//! Variables of patterns, free variables of terms, and fresh names.

use vstd::prelude::*;
use crate::language::{
    Pattern, PatternModel, SPattern, SpanPattern, Term, TermModel, STerm, SpanTerm, BindTerm,
    BindTermModel, CaseSeq, Context, find_entry, bind_into, look_up, empty_context, entries,
    share, lemma_pattern_view, lemma_term_view, lemma_bind_view, nodes_view, cases_view,
};
use crate::text::{names_view, nat_text, usize_to_string};

verus! {

// ---------------------------------------------------------------------------
// Pattern variables
// ---------------------------------------------------------------------------

/// The variables that a pattern binds, from left to right; the name of an
/// `as` pattern comes behind the variables of the pattern it names.
pub open spec fn pattern_vars(p: PatternModel) -> Seq<Seq<char>>
    decreases p, 0nat,
{
    match p {
        PatternModel::Wildcard => Seq::empty(),
        PatternModel::Var(inner, name) => match inner {
            Some(q) => pattern_vars(q.content).push(name),
            None => seq![name],
        },
        PatternModel::Tuple(ps) => patterns_vars(ps),
        PatternModel::Cons(_, inner) => match inner {
            Some(q) => pattern_vars(q.content),
            None => Seq::empty(),
        },
    }
}

/// The variables that the patterns of a list bind, from left to right.
pub open spec fn patterns_vars(ps: Seq<SPattern>) -> Seq<Seq<char>>
    decreases ps, 1nat,
{
    if ps.len() == 0 {
        Seq::empty()
    } else {
        patterns_vars(ps.drop_last()) + pattern_vars(ps.last().content)
    }
}

#[verifier::loop_isolation(false)]
fn push_pattern_vars(pattern: &Pattern, out: &mut Vec<String>)
    ensures
        names_view(final(out)@) == names_view(old(out)@) + pattern_vars(pattern@),
    decreases *pattern,
{
    proof {
        lemma_pattern_view(pattern);
    }
    let ghost before = names_view(out@);
    match pattern {
        Pattern::Wildcard => {
            assert(before + Seq::<Seq<char>>::empty() =~= before);
        },
        Pattern::Var(inner, name) => {
            match inner {
                Some(q) => {
                    push_pattern_vars(&q.content, out);
                    let ghost mid = names_view(out@);
                    out.push(name.clone());
                    assert(names_view(out@) =~= mid.push(name@));
                    assert(before + pattern_vars(q.content@).push(name@) =~= (before
                        + pattern_vars(q.content@)).push(name@));
                },
                None => {
                    out.push(name.clone());
                    assert(names_view(out@) =~= before + seq![name@]);
                },
            }
        },
        Pattern::Tuple(ps) => {
            let mut i: usize = 0;
            assert(nodes_view(ps@).take(0) =~= Seq::<SPattern>::empty());
            assert(before + Seq::<Seq<char>>::empty() =~= before);
            while i < ps.len()
                invariant
                    i <= ps@.len(),
                    names_view(out@) == before + patterns_vars(nodes_view(ps@).take(i as int)),
                decreases ps@.len() - i,
            {
                let ghost mid = patterns_vars(nodes_view(ps@).take(i as int));
                push_pattern_vars(&ps[i].content, out);
                proof {
                    let s = nodes_view(ps@).take(i + 1);
                    assert(s.drop_last() =~= nodes_view(ps@).take(i as int));
                    assert(s.last() == nodes_view(ps@)[i as int]);
                    assert((before + mid) + pattern_vars(ps@[i as int].content@) =~= before + (mid
                        + pattern_vars(ps@[i as int].content@)));
                }
                i = i + 1;
            }
            assert(nodes_view(ps@).take(ps@.len() as int) =~= nodes_view(ps@));
        },
        Pattern::Cons(_, inner) => {
            match inner {
                Some(q) => {
                    push_pattern_vars(&q.content, out);
                },
                None => {
                    assert(before + Seq::<Seq<char>>::empty() =~= before);
                },
            }
        },
    }
}

/// The variables that a pattern binds, from left to right.
pub fn collect_pattern_vars(pattern: &Pattern) -> (vars: Vec<String>)
    ensures
        names_view(vars@) == pattern_vars(pattern@),
{
    let mut vars: Vec<String> = Vec::new();
    assert(names_view(vars@) =~= Seq::<Seq<char>>::empty());
    push_pattern_vars(pattern, &mut vars);
    assert(Seq::<Seq<char>>::empty() + pattern_vars(pattern@) =~= pattern_vars(pattern@));
    vars
}

// ---------------------------------------------------------------------------
// Free variables
// ---------------------------------------------------------------------------

/// The names of a sequence, as a set.
pub open spec fn name_set(names: Seq<Seq<char>>) -> Set<Seq<char>> {
    Set::new(|n: Seq<char>| names.contains(n))
}

/// The variables that occur free in a term, given the set of bound names.
///
/// A function binds its parameters in its body, a match case binds the
/// variables of its pattern in its branch, and `let` binds the name it
/// defines in its body. The definition of a binding is read with the names
/// bound around the `let`: its own name and parameters are not bound in it.
pub open spec fn free_vars(t: TermModel, bound: Set<Seq<char>>) -> Set<Seq<char>>
    decreases t, 0nat,
{
    match t {
        TermModel::Int(_) | TermModel::Bool(_) | TermModel::Unit | TermModel::NativeCons(_) => Set::empty(),
        TermModel::Var(name) => if bound.contains(name) {
            Set::empty()
        } else {
            set![name]
        },
        TermModel::If(c, a, b) => free_vars(c.content, bound) + free_vars(a.content, bound)
            + free_vars(b.content, bound),
        TermModel::PrimOp { op, params } => free_vars_list(params, bound),
        TermModel::App(f, x) => free_vars(f.content, bound) + free_vars(x.content, bound),
        TermModel::Func { params, body } => free_vars(body.content, bound + name_set(params)),
        TermModel::Tuple(ts) => free_vars_list(ts, bound),
        TermModel::Match { def, cases } => free_vars(def.content, bound) + free_vars_cases(
            cases,
            bound,
        ),
        TermModel::Cons { cons, body } => free_vars(body.content, bound),
        TermModel::Let { bind, body } => (match bind.content.bind {
            BindTermModel::NormalBind(d) => free_vars(d.content, bound),
            BindTermModel::FuncBind(cases) => free_vars_cases(cases, bound),
        }) + free_vars(body.content, bound.insert(bind.content.name)),
    }
}

/// The variables that occur free in some term of a list.
pub open spec fn free_vars_list(ts: Seq<STerm>, bound: Set<Seq<char>>) -> Set<Seq<char>>
    decreases ts, 1nat,
{
    if ts.len() == 0 {
        Set::empty()
    } else {
        free_vars_list(ts.drop_last(), bound) + free_vars(ts.last().content, bound)
    }
}

/// The variables that occur free in some branch of a case list, where each
/// branch has the variables of its pattern bound.
pub open spec fn free_vars_cases(cases: CaseSeq, bound: Set<Seq<char>>) -> Set<Seq<char>>
    decreases cases, 1nat,
{
    if cases.len() == 0 {
        Set::empty()
    } else {
        free_vars_cases(cases.drop_last(), bound) + free_vars(
            cases.last().1.content,
            bound + name_set(pattern_vars(cases.last().0.content)),
        )
    }
}

/// The names that a context binds.
pub open spec fn bound_names(entries: Seq<(Seq<char>, ())>) -> Set<Seq<char>> {
    Set::new(|n: Seq<char>| exists|i: int| 0 <= i < entries.len() && entries[i].0 == n)
}

/// A name is found in a context exactly where the context binds it.
pub proof fn lemma_find_bound(entries: Seq<(Seq<char>, ())>, name: Seq<char>)
    ensures
        find_entry(entries, name) is Some <==> bound_names(entries).contains(name),
    decreases entries.len(),
{
    if entries.len() == 0 {
    } else if entries[0].0 == name {
    } else {
        lemma_find_bound(entries.drop_first(), name);
        let rest = entries.drop_first();
        if bound_names(rest).contains(name) {
            let i = choose|i: int| 0 <= i < rest.len() && rest[i].0 == name;
            assert(entries[i + 1].0 == name);
        }
        if bound_names(entries).contains(name) {
            let i = choose|i: int| 0 <= i < entries.len() && entries[i].0 == name;
            assert(rest[i - 1].0 == name);
        }
    }
}

/// Binding one more name adds it to the bound names.
pub proof fn lemma_bound_push(entries: Seq<(Seq<char>, ())>, name: Seq<char>)
    ensures
        bound_names(seq![(name, ())] + entries) == bound_names(entries).insert(name),
{
    let more = seq![(name, ())] + entries;
    assert forall|n: Seq<char>| bound_names(more).contains(n) <==> bound_names(entries).insert(
        name,
    ).contains(n) by {
        if bound_names(more).contains(n) {
            let i = choose|i: int| 0 <= i < more.len() && more[i].0 == n;
            if i > 0 {
                assert(entries[i - 1].0 == n);
            }
        }
        if bound_names(entries).contains(n) {
            let i = choose|i: int| 0 <= i < entries.len() && entries[i].0 == n;
            assert(more[i + 1].0 == n);
        }
        if n == name {
            assert(more[0].0 == n);
        }
    }
    assert(bound_names(more) =~= bound_names(entries).insert(name));
}

fn has_name(names: &Vec<String>, name: &String) -> (b: bool)
    ensures
        b == names_view(names@).contains(name@),
{
    let mut i: usize = 0;
    while i < names.len()
        invariant
            i <= names@.len(),
            forall|j: int| 0 <= j < i ==> names_view(names@)[j] != name@,
        decreases names@.len() - i,
    {
        if names[i] == *name {
            assert(names_view(names@)[i as int] == name@);
            return true;
        }
        i = i + 1;
    }
    false
}

/// The context that binds the names of `names` in front of `context`.
fn bind_all(names: &Vec<String>, context: &Context<()>) -> (c: Context<()>)
    ensures
        bound_names(entries(&c)) == bound_names(entries(context)) + name_set(
            names_view(names@),
        ),
{
    let mut c = share(context);
    let mut i: usize = 0;
    let ghost base = bound_names(entries(context));
    assert(base + name_set(names_view(names@).take(0)) =~= base);
    while i < names.len()
        invariant
            i <= names@.len(),
            bound_names(entries(&c)) == base + name_set(names_view(names@).take(i as int)),
        decreases names@.len() - i,
    {
        proof {
            lemma_bound_push(entries(&c), names@[i as int]@);
            let a = names_view(names@).take(i as int);
            let b = names_view(names@).take(i + 1);
            assert(b =~= a.push(names@[i as int]@));
            assert forall|n: Seq<char>| name_set(b).contains(n) <==> name_set(a).insert(
                names@[i as int]@,
            ).contains(n) by {
                if a.contains(n) {
                    let j = choose|j: int| 0 <= j < a.len() && a[j] == n;
                    assert(b[j] == n);
                }
                if b.contains(n) {
                    let j = choose|j: int| 0 <= j < b.len() && b[j] == n;
                    if j < a.len() {
                        assert(a[j] == n);
                    }
                }
                assert(b[i as int] == names@[i as int]@);
            }
            assert(name_set(b) =~= name_set(a).insert(names@[i as int]@));
            assert((base + name_set(a)).insert(names@[i as int]@) =~= base + name_set(b));
        }
        c = bind_into(names[i].clone(), (), c);
        i = i + 1;
    }
    assert(names_view(names@).take(names@.len() as int) =~= names_view(names@));
    c
}

/// Adds to `out` the free variables of the branches of `cases`.
#[verifier::loop_isolation(false)]
fn push_free_cases(
    cases: &Vec<(SpanPattern, SpanTerm)>,
    context: &Context<()>,
    out: &mut Vec<String>,
)
    requires
        names_view(old(out)@).no_duplicates(),
    ensures
        names_view(final(out)@).no_duplicates(),
        name_set(names_view(final(out)@)) == name_set(names_view(old(out)@)) + free_vars_cases(
            cases_view(cases@),
            bound_names(entries(context)),
        ),
    decreases *cases, 1nat,
{
    let ghost bound = bound_names(entries(context));
    let ghost before = name_set(names_view(out@));
    let mut i: usize = 0;
    assert(cases_view(cases@).take(0) =~= Seq::empty());
    assert(before + Set::<Seq<char>>::empty() =~= before);
    while i < cases.len()
        invariant
            i <= cases@.len(),
            names_view(out@).no_duplicates(),
            name_set(names_view(out@)) == before + free_vars_cases(
                cases_view(cases@).take(i as int),
                bound,
            ),
        decreases cases@.len() - i,
    {
        let vars = collect_pattern_vars(&cases[i].0.content);
        let inner = bind_all(&vars, context);
        let ghost mid = free_vars_cases(cases_view(cases@).take(i as int), bound);
        push_free_vars(&cases[i].1.content, &inner, out);
        proof {
            let s = cases_view(cases@).take(i + 1);
            assert(s.drop_last() =~= cases_view(cases@).take(i as int));
            assert(s.last() == cases_view(cases@)[i as int]);
            let f = free_vars(
                s.last().1.content,
                bound + name_set(pattern_vars(s.last().0.content)),
            );
            assert(s.last().1.content == cases@[i as int].1.content@);
            assert(s.last().0.content == cases@[i as int].0.content@);
            assert(free_vars_cases(s, bound) == mid + f);
            assert((before + mid) + f =~= before + (mid + f));
        }
        i = i + 1;
    }
    assert(cases_view(cases@).take(cases@.len() as int) =~= cases_view(cases@));
}

/// Adds to `out` the free variables of the terms of `ts`.
#[verifier::loop_isolation(false)]
fn push_free_list(ts: &Vec<SpanTerm>, context: &Context<()>, out: &mut Vec<String>)
    requires
        names_view(old(out)@).no_duplicates(),
    ensures
        names_view(final(out)@).no_duplicates(),
        name_set(names_view(final(out)@)) == name_set(names_view(old(out)@)) + free_vars_list(
            nodes_view(ts@),
            bound_names(entries(context)),
        ),
    decreases *ts, 1nat,
{
    let ghost bound = bound_names(entries(context));
    let ghost before = name_set(names_view(out@));
    let mut i: usize = 0;
    assert(nodes_view(ts@).take(0) =~= Seq::empty());
    assert(before + Set::<Seq<char>>::empty() =~= before);
    while i < ts.len()
        invariant
            i <= ts@.len(),
            names_view(out@).no_duplicates(),
            name_set(names_view(out@)) == before + free_vars_list(
                nodes_view(ts@).take(i as int),
                bound,
            ),
        decreases ts@.len() - i,
    {
        let ghost mid = free_vars_list(nodes_view(ts@).take(i as int), bound);
        push_free_vars(&ts[i].content, context, out);
        proof {
            let s = nodes_view(ts@).take(i + 1);
            assert(s.drop_last() =~= nodes_view(ts@).take(i as int));
            assert(s.last() == nodes_view(ts@)[i as int]);
            let f = free_vars(s.last().content, bound);
            assert(s.last().content == ts@[i as int].content@);
            assert(free_vars_list(s, bound) == mid + f);
            assert((before + mid) + f =~= before + (mid + f));
        }
        i = i + 1;
    }
    assert(nodes_view(ts@).take(ts@.len() as int) =~= nodes_view(ts@));
}

/// A list without duplicates, extended by a name that it lacks.
proof fn lemma_push_new(names: Seq<Seq<char>>, name: Seq<char>)
    requires
        names.no_duplicates(),
        !names.contains(name),
    ensures
        names.push(name).no_duplicates(),
        name_set(names.push(name)) == name_set(names) + set![name],
{
    let more = names.push(name);
    assert forall|n: Seq<char>| name_set(more).contains(n) <==> (name_set(names) + set![
        name,
    ]).contains(n) by {
        if names.contains(n) {
            let j = choose|j: int| 0 <= j < names.len() && names[j] == n;
            assert(more[j] == n);
        }
        if more.contains(n) {
            let j = choose|j: int| 0 <= j < more.len() && more[j] == n;
            if j < names.len() {
                assert(names[j] == n);
            }
        }
        assert(more[names.len() as int] == name);
    }
    assert(name_set(more) =~= name_set(names) + set![name]);
}

/// Adds to `out` the free variables of `term` that it does not hold yet.
#[verifier::rlimit(60)]
fn push_free_vars(term: &Term, context: &Context<()>, out: &mut Vec<String>)
    requires
        names_view(old(out)@).no_duplicates(),
    ensures
        names_view(final(out)@).no_duplicates(),
        name_set(names_view(final(out)@)) == name_set(names_view(old(out)@)) + free_vars(
            term@,
            bound_names(entries(context)),
        ),
    decreases *term, 0nat,
{
    proof {
        lemma_term_view(term);
    }
    let ghost bound = bound_names(entries(context));
    let ghost before = name_set(names_view(out@));
    match term {
        Term::Int(_) | Term::Bool(_) | Term::Unit | Term::NativeCons(_) => {
            assert(before + Set::<Seq<char>>::empty() =~= before);
        },
        Term::Var(name) => {
            proof {
                lemma_find_bound(entries(context), name@);
            }
            if look_up(name.as_str(), context).is_none() {
                if !has_name(out, name) {
                    proof {
                        lemma_push_new(names_view(out@), name@);
                    }
                    let ghost old_names = names_view(out@);
                    out.push(name.clone());
                    assert(names_view(out@) =~= old_names.push(name@));
                } else {
                    assert(before + set![name@] =~= before);
                }
            } else {
                assert(before + Set::<Seq<char>>::empty() =~= before);
            }
        },
        Term::If(c, a, b) => {
            push_free_vars(&c.content, context, out);
            push_free_vars(&a.content, context, out);
            push_free_vars(&b.content, context, out);
            assert(before + free_vars(c.content@, bound) + free_vars(a.content@, bound)
                + free_vars(b.content@, bound) =~= before + (free_vars(c.content@, bound)
                + free_vars(a.content@, bound) + free_vars(b.content@, bound)));
        },
        Term::PrimOp { op, params } => {
            push_free_list(params, context, out);
        },
        Term::App(f, x) => {
            push_free_vars(&f.content, context, out);
            push_free_vars(&x.content, context, out);
            assert(before + free_vars(f.content@, bound) + free_vars(x.content@, bound) =~= before
                + (free_vars(f.content@, bound) + free_vars(x.content@, bound)));
        },
        Term::Func { params, body } => {
            let inner = bind_all(params, context);
            push_free_vars(&body.content, &inner, out);
        },
        Term::Tuple(ts) => {
            push_free_list(ts, context, out);
        },
        Term::Match { def, cases } => {
            push_free_vars(&def.content, context, out);
            push_free_cases(cases, context, out);
            assert(before + free_vars(def.content@, bound) + free_vars_cases(
                cases_view(cases@),
                bound,
            ) =~= before + (free_vars(def.content@, bound) + free_vars_cases(
                cases_view(cases@),
                bound,
            )));
        },
        Term::Cons { cons, body } => {
            push_free_vars(&body.content, context, out);
        },
        Term::Let { bind, body } => {
            proof {
                lemma_bind_view(&bind.content);
            }
            match &bind.content.bind {
                BindTerm::NormalBind(d) => {
                    push_free_vars(&d.content, context, out);
                },
                BindTerm::FuncBind(cases) => {
                    push_free_cases(cases, context, out);
                },
            }
            let ghost mid = name_set(names_view(out@));
            proof {
                lemma_bound_push(entries(context), bind.content.name@);
            }
            let inner = bind_into(bind.content.name.clone(), (), share(context));
            push_free_vars(&body.content, &inner, out);
            proof {
                let d = match bind.content@.bind {
                    BindTermModel::NormalBind(d) => free_vars(d.content, bound),
                    BindTermModel::FuncBind(cases) => free_vars_cases(cases, bound),
                };
                let f = free_vars(body.content@, bound.insert(bind.content.name@));
                assert((before + d) + f =~= before + (d + f));
            }
        },
    }
}

/// The variables that occur free in a term, each once.
pub fn collect_free_vars(term: &Term) -> (vars: Vec<String>)
    ensures
        names_view(vars@).no_duplicates(),
        name_set(names_view(vars@)) == free_vars(term@, Set::empty()),
{
    let context: Context<()> = empty_context();
    let mut vars: Vec<String> = Vec::new();
    assert(names_view(vars@) =~= Seq::<Seq<char>>::empty());
    assert(name_set(names_view(vars@)) =~= Set::<Seq<char>>::empty());
    assert(bound_names(entries(&context)) =~= Set::<Seq<char>>::empty());
    push_free_vars(term, &context, &mut vars);
    assert(Set::<Seq<char>>::empty() + free_vars(term@, Set::empty()) =~= free_vars(
        term@,
        Set::empty(),
    ));
    vars
}

// ---------------------------------------------------------------------------
// Fresh names
// ---------------------------------------------------------------------------

/// The candidate name with index `i`: `var0`, `var1`, and so on.
pub open spec fn var_name(i: nat) -> Seq<char> {
    "var"@ + nat_text(i)
}

/// The least index from `from` on, below `limit`, whose candidate name is
/// not in `used`; `limit` where there is none.
pub open spec fn fresh_index(used: Set<Seq<char>>, from: nat, limit: nat) -> nat
    decreases limit - from,
{
    if from >= limit {
        limit
    } else if !used.contains(var_name(from)) {
        from
    } else {
        fresh_index(used, from + 1, limit)
    }
}

/// The free variables of the terms of a list.
pub open spec fn free_vars_of(ts: Seq<STerm>) -> Set<Seq<char>> {
    free_vars_list(ts, Set::empty())
}

/// The first of `var0`, `var1`, ... that is not in `used`.
pub open spec fn fresh_name(used: Set<Seq<char>>) -> Seq<char> {
    var_name(fresh_index(used, 0, usize::MAX as nat))
}

/// The first of the names `var0`, `var1`, ... that is free in none of the
/// terms.
pub fn get_free_name(terms: &Vec<SpanTerm>) -> (name: String)
    ensures
        name@ == fresh_name(free_vars_of(nodes_view(terms@))),
{
    let context: Context<()> = empty_context();
    let mut vars: Vec<String> = Vec::new();
    assert(names_view(vars@) =~= Seq::<Seq<char>>::empty());
    assert(name_set(names_view(vars@)) =~= Set::<Seq<char>>::empty());
    assert(bound_names(entries(&context)) =~= Set::<Seq<char>>::empty());
    push_free_list(terms, &context, &mut vars);
    let ghost used = free_vars_of(nodes_view(terms@));
    assert(name_set(names_view(vars@)) =~= used);
    let mut i: usize = 0;
    while i < usize::MAX
        invariant
            used == free_vars_of(nodes_view(terms@)),
            name_set(names_view(vars@)) == used,
            fresh_index(used, 0, usize::MAX as nat) == fresh_index(
                used,
                i as nat,
                usize::MAX as nat,
            ),
        decreases usize::MAX - i,
    {
        let mut name = String::from_str("var");
        name.append(usize_to_string(i).as_str());
        assert(name@ == var_name(i as nat));
        if !has_name(&vars, &name) {
            assert(!used.contains(var_name(i as nat)));
            assert(fresh_index(used, i as nat, usize::MAX as nat) == i);
            return name;
        }
        assert(used.contains(var_name(i as nat)));
        i = i + 1;
    }
    let mut name = String::from_str("var");
    name.append(usize_to_string(i).as_str());
    name
}

} // verus!
