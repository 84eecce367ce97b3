//! From the internal form to JSON.
//!
//! Only the internal form has an encoding: a function has one parameter, a
//! binding is plain and without parameters, a constructor pattern has an
//! argument, and no constructor name stands as a value. A type variable is
//! written as its position among the variables of the quantifier around it.

use vstd::prelude::*;
use crate::language::{
    Pattern, PatternModel, SpanPattern, SPattern, Type, TypeModel, SpanType, SType, Term,
    TermModel, SpanTerm, STerm, BindTerm, BindTermModel, CaseSeq, Command, CommandModel,
    DecoratedCommand, ProgramModel, program_view, cons_list_view, nodes_view, cases_view, share,
    lemma_pattern_view, lemma_type_view, lemma_term_view, lemma_bind_view,
};
use crate::text::names_view;
use crate::processor::processor::{all_some, unwrap_all};
use crate::serializer::json::{
    Json, JsonModel, tagged, start, put, string, object, array, number, items_view, members_view,
};

verus! {

/// The encoding of a pattern; `None` for a pattern with a constructor
/// without argument.
pub open spec fn enc_pattern(p: PatternModel) -> Option<JsonModel>
    decreases p, 0nat,
{
    match p {
        PatternModel::Wildcard => Some(JsonModel::Object(tagged("underscore"@))),
        PatternModel::Var(inner, name) => match inner {
            None => Some(
                JsonModel::Object(tagged("var"@).push(("name"@, JsonModel::String(name)))),
            ),
            Some(q) => match enc_pattern(q.content) {
                Some(c) => Some(
                    JsonModel::Object(
                        tagged("var"@).push(("name"@, JsonModel::String(name))).push(
                            ("content"@, c),
                        ),
                    ),
                ),
                None => None,
            },
        },
        PatternModel::Tuple(ps) => {
            let rs = enc_patterns(ps);
            if all_some(rs) {
                Some(
                    JsonModel::Object(
                        tagged("tuple"@).push(("fields"@, JsonModel::Array(unwrap_all(rs)))),
                    ),
                )
            } else {
                None
            }
        },
        PatternModel::Cons(name, inner) => match inner {
            None => None,
            Some(q) => match enc_pattern(q.content) {
                Some(c) => Some(
                    JsonModel::Object(
                        tagged("cons"@).push(("name"@, JsonModel::String(name))).push(
                            ("content"@, c),
                        ),
                    ),
                ),
                None => None,
            },
        },
    }
}

/// The encodings of the patterns of a list.
pub open spec fn enc_patterns(ps: Seq<SPattern>) -> Seq<Option<JsonModel>>
    decreases ps, 1nat,
{
    Seq::new(
        ps.len(),
        |i: int|
            if 0 <= i < ps.len() {
                enc_pattern(ps[i].content)
            } else {
                None
            },
    )
}

/// The last position of `name` in `vars`; `-1` where it is not in it.
pub open spec fn last_index(vars: Seq<Seq<char>>, name: Seq<char>) -> int
    decreases vars.len(),
{
    if vars.len() == 0 {
        -1
    } else if vars.last() == name {
        vars.len() - 1
    } else {
        last_index(vars.drop_last(), name)
    }
}

/// The names of a list as JSON strings.
pub open spec fn enc_names(names: Seq<Seq<char>>) -> Seq<JsonModel> {
    Seq::new(names.len(), |i: int| JsonModel::String(names[i]))
}

/// The encoding of a type under the quantified variables `vars`.
///
/// `None` for a variable that is not among `vars`, and for a quantifier
/// under a quantifier that has variables.
pub open spec fn enc_type(t: TypeModel, vars: Seq<Seq<char>>) -> Option<JsonModel>
    decreases t, 0nat,
{
    match t {
        TypeModel::Int => Some(JsonModel::Object(tagged("int"@))),
        TypeModel::Unit => Some(JsonModel::Object(tagged("unit"@))),
        TypeModel::Bool => Some(JsonModel::Object(tagged("bool"@))),
        TypeModel::Var(name) => if last_index(vars, name) >= 0 {
            Some(
                JsonModel::Object(
                    tagged("var"@).push(
                        ("index"@, JsonModel::Number(last_index(vars, name))),
                    ),
                ),
            )
        } else {
            None
        },
        TypeModel::Arr(a, b) => match (enc_type(a.content, vars), enc_type(b.content, vars)) {
            (Some(s), Some(t)) => Some(
                JsonModel::Object(tagged("arrow"@).push(("s"@, s)).push(("t"@, t))),
            ),
            _ => None,
        },
        TypeModel::Tuple(ts) => {
            let rs = enc_types(ts, vars);
            if all_some(rs) {
                Some(
                    JsonModel::Object(
                        tagged("tuple"@).push(("fields"@, JsonModel::Array(unwrap_all(rs)))),
                    ),
                )
            } else {
                None
            }
        },
        TypeModel::Ind { name, params } => {
            let rs = enc_types(params, vars);
            if all_some(rs) {
                Some(
                    JsonModel::Object(
                        tagged("cons"@).push(("name"@, JsonModel::String(name))).push(
                            ("params"@, JsonModel::Array(unwrap_all(rs))),
                        ),
                    ),
                )
            } else {
                None
            }
        },
        TypeModel::Poly { vars: bound, body } => if vars.len() == 0 {
            match enc_type(body.content, bound) {
                Some(b) => Some(
                    JsonModel::Object(
                        tagged("poly"@).push(("vars"@, JsonModel::Array(enc_names(bound)))).push(
                            ("body"@, b),
                        ),
                    ),
                ),
                None => None,
            }
        } else {
            None
        },
    }
}

/// The encodings of the types of a list.
pub open spec fn enc_types(ts: Seq<SType>, vars: Seq<Seq<char>>) -> Seq<Option<JsonModel>>
    decreases ts, 1nat,
{
    Seq::new(
        ts.len(),
        |i: int|
            if 0 <= i < ts.len() {
                enc_type(ts[i].content, vars)
            } else {
                None
            },
    )
}

/// The encoding of a term; `None` for a term that is not in internal form.
pub open spec fn enc_term(t: TermModel) -> Option<JsonModel>
    decreases t, 0nat,
{
    match t {
        TermModel::Int(i) => Some(
            JsonModel::Object(tagged("int"@).push(("value"@, JsonModel::Number(i as int)))),
        ),
        TermModel::Bool(b) => Some(
            JsonModel::Object(
                tagged(
                    if b {
                        "true"@
                    } else {
                        "false"@
                    },
                ),
            ),
        ),
        TermModel::Unit => Some(JsonModel::Object(tagged("unit"@))),
        TermModel::If(c, a, b) => match (
            enc_term(c.content),
            enc_term(a.content),
            enc_term(b.content),
        ) {
            (Some(c2), Some(a2), Some(b2)) => Some(
                JsonModel::Object(
                    tagged("if"@).push(("condition"@, c2)).push(("true"@, a2)).push(("false"@, b2)),
                ),
            ),
            _ => None,
        },
        TermModel::Var(name) => Some(
            JsonModel::Object(tagged("var"@).push(("name"@, JsonModel::String(name)))),
        ),
        TermModel::PrimOp { op, params } => {
            let rs = enc_terms(params);
            if all_some(rs) {
                Some(
                    JsonModel::Object(
                        tagged("op"@).push(("operator"@, JsonModel::String(op))).push(
                            ("operand"@, JsonModel::Array(unwrap_all(rs))),
                        ),
                    ),
                )
            } else {
                None
            }
        },
        TermModel::App(f, x) => match (enc_term(f.content), enc_term(x.content)) {
            (Some(f2), Some(x2)) => Some(
                JsonModel::Object(tagged("app"@).push(("func"@, f2)).push(("param"@, x2))),
            ),
            _ => None,
        },
        TermModel::Func { params, body } => if params.len() == 1 {
            match enc_term(body.content) {
                Some(b2) => Some(
                    JsonModel::Object(
                        tagged("func"@).push(("name"@, JsonModel::String(params[0]))).push(
                            ("content"@, b2),
                        ),
                    ),
                ),
                None => None,
            }
        } else {
            None
        },
        TermModel::Tuple(ts) => {
            let rs = enc_terms(ts);
            if all_some(rs) {
                Some(
                    JsonModel::Object(
                        tagged("tuple"@).push(("fields"@, JsonModel::Array(unwrap_all(rs)))),
                    ),
                )
            } else {
                None
            }
        },
        TermModel::Match { def, cases } => {
            let rs = enc_cases(cases);
            match enc_term(def.content) {
                Some(d2) => if all_some(rs) {
                    Some(
                        JsonModel::Object(
                            tagged("match"@).push(("cases"@, JsonModel::Array(unwrap_all(rs)))).push(
                                ("value"@, d2),
                            ),
                        ),
                    )
                } else {
                    None
                },
                None => None,
            }
        },
        TermModel::Cons { cons, body } => match enc_term(body.content) {
            Some(b2) => Some(
                JsonModel::Object(
                    tagged("cons"@).push(("name"@, JsonModel::String(cons))).push(("content"@, b2)),
                ),
            ),
            None => None,
        },
        TermModel::Let { bind, body } => match bind.content.bind {
            BindTermModel::NormalBind(d) => if bind.content.params.len() == 0 {
                match (enc_term(d.content), enc_term(body.content)) {
                    (Some(d2), Some(b2)) => Some(
                        JsonModel::Object(
                            tagged(
                                if bind.content.is_rec {
                                    "letrec"@
                                } else {
                                    "let"@
                                },
                            ).push(("name"@, JsonModel::String(bind.content.name))).push(
                                ("def"@, d2),
                            ).push(("content"@, b2)),
                        ),
                    ),
                    _ => None,
                }
            } else {
                None
            },
            BindTermModel::FuncBind(_) => None,
        },
        TermModel::NativeCons(_) => None,
    }
}

/// The encodings of the terms of a list.
pub open spec fn enc_terms(ts: Seq<STerm>) -> Seq<Option<JsonModel>>
    decreases ts, 1nat,
{
    Seq::new(
        ts.len(),
        |i: int|
            if 0 <= i < ts.len() {
                enc_term(ts[i].content)
            } else {
                None
            },
    )
}

/// The encoding of a match case: an object of its pattern and its branch.
pub open spec fn enc_case(p: Option<JsonModel>, t: Option<JsonModel>) -> Option<JsonModel> {
    match (p, t) {
        (Some(pat), Some(t2)) => Some(
            JsonModel::Object(seq![("pattern"@, pat)].push(("branch"@, t2))),
        ),
        _ => None,
    }
}

/// The encodings of the cases of a list.
pub open spec fn enc_cases(cases: CaseSeq) -> Seq<Option<JsonModel>>
    decreases cases, 1nat,
{
    Seq::new(
        cases.len(),
        |i: int|
            if 0 <= i < cases.len() {
                enc_case(enc_pattern(cases[i].0.content), enc_term(cases[i].1.content))
            } else {
                None
            },
    )
}

/// The encoding of a constructor declaration: an object of its name and the
/// encoding of its scheme.
pub open spec fn enc_cons(d: (Seq<char>, SType)) -> Option<JsonModel> {
    match enc_type(d.1.content, Seq::empty()) {
        Some(t) => Some(
            JsonModel::Object(seq![("name"@, JsonModel::String(d.0))].push(("type"@, t))),
        ),
        None => None,
    }
}

/// The encodings of the constructor declarations of a list.
pub open spec fn enc_conses(cons_list: Seq<(Seq<char>, SType)>) -> Seq<Option<JsonModel>> {
    Seq::new(cons_list.len(), |i: int| enc_cons(cons_list[i]))
}

/// The encoding of a command; `None` for an alias, a configuration, a
/// binding that is not plain or has parameters, and where a part of the
/// command has no encoding. Decorators are not written.
pub open spec fn enc_command(c: CommandModel) -> Option<JsonModel> {
    match c {
        CommandModel::TermDef(b) => match b.content.bind {
            BindTermModel::NormalBind(d) => if b.content.params.len() == 0 {
                match enc_term(d.content) {
                    Some(d2) => Some(
                        JsonModel::Object(
                            tagged(
                                if b.content.is_rec {
                                    "func"@
                                } else {
                                    "bind"@
                                },
                            ).push(("name"@, JsonModel::String(b.content.name))).push(("def"@, d2)),
                        ),
                    ),
                    None => None,
                }
            } else {
                None
            },
            BindTermModel::FuncBind(_) => None,
        },
        CommandModel::TypeDeclare { name, ty } => match enc_type(ty.content, Seq::empty()) {
            Some(t) => Some(
                JsonModel::Object(
                    tagged("declare"@).push(("name"@, JsonModel::String(name))).push(("ty"@, t)),
                ),
            ),
            None => None,
        },
        CommandModel::TypeDef { name, cons_list, arity } => if all_some(enc_conses(cons_list)) {
            Some(
                JsonModel::Object(
                    tagged("type"@).push(("name"@, JsonModel::String(name))).push(
                        ("arity"@, JsonModel::Number(arity as int)),
                    ).push(("cons"@, JsonModel::Array(unwrap_all(enc_conses(cons_list))))),
                ),
            )
        } else {
            None
        },
        CommandModel::TermEval(t) => match enc_term(t.content) {
            Some(t2) => Some(JsonModel::Object(tagged("eval"@).push(("term"@, t2)))),
            None => None,
        },
        CommandModel::Config { .. } => None,
        CommandModel::TypeAlias { .. } => None,
    }
}

/// The encodings of the commands of a program.
pub open spec fn enc_commands(p: ProgramModel) -> Seq<Option<JsonModel>> {
    Seq::new(p.len(), |i: int| enc_command(p[i].command.content))
}

/// The encoding of a program: the array of the encodings of its commands;
/// `None` where a command has none.
pub open spec fn enc_program(p: ProgramModel) -> Option<JsonModel> {
    if all_some(enc_commands(p)) {
        Some(JsonModel::Array(unwrap_all(enc_commands(p))))
    } else {
        None
    }
}

/// Whether an encoder gave what the model gives.
pub open spec fn encoded(r: Option<Json>, m: Option<JsonModel>) -> bool {
    match r {
        Some(j) => m == Some(j@),
        None => m is None,
    }
}

/// Whether a list encoder gave what the model gives.
pub open spec fn encoded_all(r: Option<Vec<Json>>, m: Seq<Option<JsonModel>>) -> bool {
    match r {
        Some(v) => all_some(m) && items_view(v@) == unwrap_all(m),
        None => !all_some(m),
    }
}

#[verifier::loop_isolation(false)]
fn serialize_patterns(ps: &Vec<SpanPattern>) -> (r: Option<Vec<Json>>)
    ensures
        encoded_all(r, enc_patterns(nodes_view(ps@))),
    decreases *ps, 1nat,
{
    let ghost rs = enc_patterns(nodes_view(ps@));
    let mut out: Vec<Json> = Vec::new();
    let mut i: usize = 0;
    while i < ps.len()
        invariant
            i <= ps@.len(),
            out@.len() == i,
            forall|j: int| 0 <= j < i ==> (#[trigger] rs[j]) == Some(out@[j]@),
        decreases ps@.len() - i,
    {
        match ps[i].content.serialize() {
            Some(j) => {
                out.push(j);
            },
            None => {
                assert(rs[i as int] is None);
                return None;
            },
        }
        i = i + 1;
    }
    assert(items_view(out@) =~= unwrap_all(rs));
    Some(out)
}

impl Pattern {
    /// The encoding of the pattern.
    pub fn serialize(&self) -> (r: Option<Json>)
        ensures
            encoded(r, enc_pattern(self@)),
        decreases *self, 0nat,
    {
        proof {
            lemma_pattern_view(self);
        }
        match self {
            Pattern::Wildcard => Some(object(start("underscore"))),
            Pattern::Var(inner, name) => {
                let mut m = start("var");
                put(&mut m, "name", string(name));
                match inner {
                    None => {},
                    Some(q) => match q.content.serialize() {
                        Some(c) => {
                            put(&mut m, "content", c);
                        },
                        None => {
                            return None;
                        },
                    },
                }
                Some(object(m))
            },
            Pattern::Tuple(ps) => match serialize_patterns(ps) {
                Some(items) => {
                    let mut m = start("tuple");
                    put(&mut m, "fields", array(items));
                    Some(object(m))
                },
                None => None,
            },
            Pattern::Cons(name, inner) => match inner {
                None => None,
                Some(q) => match q.content.serialize() {
                    Some(c) => {
                        let mut m = start("cons");
                        put(&mut m, "name", string(name));
                        put(&mut m, "content", c);
                        Some(object(m))
                    },
                    None => None,
                },
            },
        }
    }
}

/// The last position of `name` in `vars`.
fn find_last(vars: &Vec<String>, name: &String) -> (r: Option<usize>)
    ensures
        match r {
            Some(i) => last_index(names_view(vars@), name@) == i,
            None => last_index(names_view(vars@), name@) == -1,
        },
{
    let mut i: usize = vars.len();
    let ghost all = names_view(vars@);
    assert(all.take(vars@.len() as int) =~= all);
    while i > 0
        invariant
            i <= vars@.len(),
            all == names_view(vars@),
            last_index(all, name@) == last_index(all.take(i as int), name@),
        decreases i,
    {
        i = i - 1;
        proof {
            assert(all.take(i + 1).drop_last() =~= all.take(i as int));
            assert(all.take(i + 1).last() == all[i as int]);
        }
        if vars[i] == *name {
            return Some(i);
        }
    }
    None
}

fn serialize_names(names: &Vec<String>) -> (r: Vec<Json>)
    ensures
        items_view(r@) == enc_names(names_view(names@)),
{
    let mut out: Vec<Json> = Vec::new();
    let mut i: usize = 0;
    while i < names.len()
        invariant
            i <= names@.len(),
            out@.len() == i,
            forall|j: int| 0 <= j < i ==> (#[trigger] out@[j])@ == JsonModel::String(names@[j]@),
        decreases names@.len() - i,
    {
        out.push(string(&names[i]));
        i = i + 1;
    }
    assert(items_view(out@) =~= enc_names(names_view(names@)));
    out
}

#[verifier::loop_isolation(false)]
fn serialize_types(ts: &Vec<SpanType>, vars: &Vec<String>) -> (r: Option<Vec<Json>>)
    ensures
        encoded_all(r, enc_types(nodes_view(ts@), names_view(vars@))),
    decreases *ts, 1nat,
{
    let ghost rs = enc_types(nodes_view(ts@), names_view(vars@));
    let mut out: Vec<Json> = Vec::new();
    let mut i: usize = 0;
    while i < ts.len()
        invariant
            i <= ts@.len(),
            out@.len() == i,
            forall|j: int| 0 <= j < i ==> (#[trigger] rs[j]) == Some(out@[j]@),
        decreases ts@.len() - i,
    {
        match serialize_type_under(&ts[i].content, vars) {
            Some(j) => {
                out.push(j);
            },
            None => {
                assert(rs[i as int] is None);
                return None;
            },
        }
        i = i + 1;
    }
    assert(items_view(out@) =~= unwrap_all(rs));
    Some(out)
}

/// The encoding of a type under the quantified variables `vars`.
pub fn serialize_type_under(ty: &Type, vars: &Vec<String>) -> (r: Option<Json>)
    ensures
        encoded(r, enc_type(ty@, names_view(vars@))),
    decreases *ty, 0nat,
{
    proof {
        lemma_type_view(ty);
    }
    match ty {
        Type::Int => Some(object(start("int"))),
        Type::Unit => Some(object(start("unit"))),
        Type::Bool => Some(object(start("bool"))),
        Type::Var(name) => match find_last(vars, name) {
            Some(i) => {
                let mut m = start("var");
                put(&mut m, "index", number(i as i128));
                Some(object(m))
            },
            None => None,
        },
        Type::Arr(a, b) => {
            let s = match serialize_type_under(&a.content, vars) {
                Some(j) => j,
                None => {
                    return None;
                },
            };
            let t = match serialize_type_under(&b.content, vars) {
                Some(j) => j,
                None => {
                    return None;
                },
            };
            let mut m = start("arrow");
            put(&mut m, "s", s);
            put(&mut m, "t", t);
            Some(object(m))
        },
        Type::Tuple(ts) => match serialize_types(ts, vars) {
            Some(items) => {
                let mut m = start("tuple");
                put(&mut m, "fields", array(items));
                Some(object(m))
            },
            None => None,
        },
        Type::Ind { name, params } => match serialize_types(params, vars) {
            Some(items) => {
                let mut m = start("cons");
                put(&mut m, "name", string(name));
                put(&mut m, "params", array(items));
                Some(object(m))
            },
            None => None,
        },
        Type::Poly { vars: bound, body } => {
            if vars.len() != 0 {
                return None;
            }
            match serialize_type_under(&body.content, bound) {
                Some(b) => {
                    let mut m = start("poly");
                    put(&mut m, "vars", array(serialize_names(bound)));
                    put(&mut m, "body", b);
                    Some(object(m))
                },
                None => None,
            }
        },
    }
}

impl Type {
    /// The encoding of the type, outside any quantifier.
    pub fn serialize(&self) -> (r: Option<Json>)
        ensures
            encoded(r, enc_type(self@, Seq::empty())),
    {
        let vars: Vec<String> = Vec::new();
        assert(names_view(vars@) =~= Seq::<Seq<char>>::empty());
        serialize_type_under(self, &vars)
    }
}

/// A match case as it is written.
pub struct MatchCase {
    pub pattern: SpanPattern,
    pub branch: SpanTerm,
}

impl MatchCase {
    pub fn from_case(case: &(SpanPattern, SpanTerm)) -> (r: MatchCase)
        ensures
            r.pattern@ == case.0@,
            r.branch@ == case.1@,
    {
        MatchCase { pattern: share(&case.0), branch: share(&case.1) }
    }

    /// The encoding of the case: an object of its pattern and its branch.
    pub fn serialize(&self) -> (r: Option<Json>)
        ensures
            encoded(
                r,
                enc_case(enc_pattern(self.pattern@.content), enc_term(self.branch@.content)),
            ),
    {
        let p = match self.pattern.content.serialize() {
            Some(j) => j,
            None => {
                return None;
            },
        };
        let t = match self.branch.content.serialize() {
            Some(j) => j,
            None => {
                return None;
            },
        };
        let mut m: Vec<(String, Json)> = Vec::new();
        assert(members_view(m@) =~= Seq::empty());
        put(&mut m, "pattern", p);
        put(&mut m, "branch", t);
        assert(members_view(m@) =~= seq![("pattern"@, p@)].push(("branch"@, t@)));
        Some(object(m))
    }
}

/// A constructor declaration as it is written.
pub struct ConsInfo {
    pub name: String,
    pub ty: SpanType,
}

impl ConsInfo {
    pub fn from_info(cons_info: &(String, SpanType)) -> (r: ConsInfo)
        ensures
            r.name@ == cons_info.0@,
            r.ty@ == cons_info.1@,
    {
        ConsInfo { name: cons_info.0.clone(), ty: share(&cons_info.1) }
    }

    /// The encoding of the declaration: an object of its name and its
    /// scheme.
    pub fn serialize(&self) -> (r: Option<Json>)
        ensures
            encoded(r, enc_cons((self.name@, self.ty@))),
    {
        match self.ty.content.serialize() {
            Some(t) => {
                let mut m: Vec<(String, Json)> = Vec::new();
                assert(members_view(m@) =~= Seq::empty());
                put(&mut m, "name", string(&self.name));
                put(&mut m, "type", t);
                assert(members_view(m@) =~= seq![("name"@, JsonModel::String(self.name@))].push(
                    ("type"@, t@),
                ));
                Some(object(m))
            },
            None => None,
        }
    }
}

#[verifier::loop_isolation(false)]
fn serialize_terms(ts: &Vec<SpanTerm>) -> (r: Option<Vec<Json>>)
    ensures
        encoded_all(r, enc_terms(nodes_view(ts@))),
    decreases *ts, 1nat,
{
    let ghost rs = enc_terms(nodes_view(ts@));
    let mut out: Vec<Json> = Vec::new();
    let mut i: usize = 0;
    while i < ts.len()
        invariant
            i <= ts@.len(),
            out@.len() == i,
            forall|j: int| 0 <= j < i ==> (#[trigger] rs[j]) == Some(out@[j]@),
        decreases ts@.len() - i,
    {
        match ts[i].content.serialize() {
            Some(j) => {
                out.push(j);
            },
            None => {
                assert(rs[i as int] is None);
                return None;
            },
        }
        i = i + 1;
    }
    assert(items_view(out@) =~= unwrap_all(rs));
    Some(out)
}

#[verifier::loop_isolation(false)]
fn serialize_cases(cases: &Vec<(SpanPattern, SpanTerm)>) -> (r: Option<Vec<Json>>)
    ensures
        encoded_all(r, enc_cases(cases_view(cases@))),
    decreases *cases, 1nat,
{
    let ghost rs = enc_cases(cases_view(cases@));
    let mut out: Vec<Json> = Vec::new();
    let mut i: usize = 0;
    while i < cases.len()
        invariant
            i <= cases@.len(),
            out@.len() == i,
            forall|j: int| 0 <= j < i ==> (#[trigger] rs[j]) == Some(out@[j]@),
        decreases cases@.len() - i,
    {
        let p = match cases[i].0.content.serialize() {
            Some(j) => j,
            None => {
                assert(rs[i as int] is None);
                return None;
            },
        };
        let t = match cases[i].1.content.serialize() {
            Some(j) => j,
            None => {
                assert(rs[i as int] is None);
                return None;
            },
        };
        let mut m: Vec<(String, Json)> = Vec::new();
        assert(members_view(m@) =~= Seq::empty());
        put(&mut m, "pattern", p);
        put(&mut m, "branch", t);
        assert(members_view(m@) =~= seq![("pattern"@, p@)].push(("branch"@, t@)));
        out.push(object(m));
        i = i + 1;
    }
    assert(items_view(out@) =~= unwrap_all(rs));
    Some(out)
}

impl Term {
    /// The encoding of the term.
    pub fn serialize(&self) -> (r: Option<Json>)
        ensures
            encoded(r, enc_term(self@)),
        decreases *self, 0nat,
    {
        proof {
            lemma_term_view(self);
        }
        match self {
            Term::Int(i) => {
                let mut m = start("int");
                put(&mut m, "value", number(*i as i128));
                Some(object(m))
            },
            Term::Bool(b) => Some(
                object(
                    start(
                        if *b {
                            "true"
                        } else {
                            "false"
                        },
                    ),
                ),
            ),
            Term::Unit => Some(object(start("unit"))),
            Term::If(c, a, b) => {
                let c2 = match c.content.serialize() {
                    Some(j) => j,
                    None => {
                        return None;
                    },
                };
                let a2 = match a.content.serialize() {
                    Some(j) => j,
                    None => {
                        return None;
                    },
                };
                let b2 = match b.content.serialize() {
                    Some(j) => j,
                    None => {
                        return None;
                    },
                };
                let mut m = start("if");
                put(&mut m, "condition", c2);
                put(&mut m, "true", a2);
                put(&mut m, "false", b2);
                Some(object(m))
            },
            Term::Var(name) => {
                let mut m = start("var");
                put(&mut m, "name", string(name));
                Some(object(m))
            },
            Term::PrimOp { op, params } => match serialize_terms(params) {
                Some(items) => {
                    let mut m = start("op");
                    put(&mut m, "operator", string(op));
                    put(&mut m, "operand", array(items));
                    Some(object(m))
                },
                None => None,
            },
            Term::App(f, x) => {
                let f2 = match f.content.serialize() {
                    Some(j) => j,
                    None => {
                        return None;
                    },
                };
                let x2 = match x.content.serialize() {
                    Some(j) => j,
                    None => {
                        return None;
                    },
                };
                let mut m = start("app");
                put(&mut m, "func", f2);
                put(&mut m, "param", x2);
                Some(object(m))
            },
            Term::Func { params, body } => {
                if params.len() != 1 {
                    return None;
                }
                match body.content.serialize() {
                    Some(b2) => {
                        let mut m = start("func");
                        put(&mut m, "name", string(&params[0]));
                        put(&mut m, "content", b2);
                        Some(object(m))
                    },
                    None => None,
                }
            },
            Term::Tuple(ts) => match serialize_terms(ts) {
                Some(items) => {
                    let mut m = start("tuple");
                    put(&mut m, "fields", array(items));
                    Some(object(m))
                },
                None => None,
            },
            Term::Match { def, cases } => {
                let d2 = match def.content.serialize() {
                    Some(j) => j,
                    None => {
                        return None;
                    },
                };
                match serialize_cases(cases) {
                    Some(items) => {
                        let mut m = start("match");
                        put(&mut m, "cases", array(items));
                        put(&mut m, "value", d2);
                        Some(object(m))
                    },
                    None => None,
                }
            },
            Term::Cons { cons, body } => match body.content.serialize() {
                Some(b2) => {
                    let mut m = start("cons");
                    put(&mut m, "name", string(cons));
                    put(&mut m, "content", b2);
                    Some(object(m))
                },
                None => None,
            },
            Term::Let { bind, body } => {
                proof {
                    lemma_bind_view(&bind.content);
                }
                match &bind.content.bind {
                    BindTerm::NormalBind(d) => {
                        if bind.content.params.len() != 0 {
                            return None;
                        }
                        let d2 = match d.content.serialize() {
                            Some(j) => j,
                            None => {
                                return None;
                            },
                        };
                        let b2 = match body.content.serialize() {
                            Some(j) => j,
                            None => {
                                return None;
                            },
                        };
                        let mut m = start(
                            if bind.content.is_rec {
                                "letrec"
                            } else {
                                "let"
                            },
                        );
                        put(&mut m, "name", string(&bind.content.name));
                        put(&mut m, "def", d2);
                        put(&mut m, "content", b2);
                        Some(object(m))
                    },
                    BindTerm::FuncBind(_) => None,
                }
            },
            Term::NativeCons(_) => None,
        }
    }
}

impl Command {
    /// The encoding of the command.
    #[verifier::loop_isolation(false)]
    pub fn serialize(&self) -> (r: Option<Json>)
        ensures
            encoded(r, enc_command(self@)),
    {
        match self {
            Command::TermDef(b) => {
                proof {
                    lemma_bind_view(&b.content);
                }
                match &b.content.bind {
                    BindTerm::NormalBind(d) => {
                        if b.content.params.len() != 0 {
                            return None;
                        }
                        match d.content.serialize() {
                            Some(d2) => {
                                let mut m = start(
                                    if b.content.is_rec {
                                        "func"
                                    } else {
                                        "bind"
                                    },
                                );
                                put(&mut m, "name", string(&b.content.name));
                                put(&mut m, "def", d2);
                                Some(object(m))
                            },
                            None => None,
                        }
                    },
                    BindTerm::FuncBind(_) => None,
                }
            },
            Command::TypeDeclare { name, ty } => match ty.content.serialize() {
                Some(t) => {
                    let mut m = start("declare");
                    put(&mut m, "name", string(name));
                    put(&mut m, "ty", t);
                    Some(object(m))
                },
                None => None,
            },
            Command::TypeDef { name, cons_list, arity } => {
                let ghost rs = enc_conses(cons_list_view(cons_list@));
                let mut items: Vec<Json> = Vec::new();
                let mut i: usize = 0;
                while i < cons_list.len()
                    invariant
                        i <= cons_list@.len(),
                        rs == enc_conses(cons_list_view(cons_list@)),
                        items@.len() == i,
                        forall|j: int| 0 <= j < i ==> (#[trigger] rs[j]) == Some(items@[j]@),
                    decreases cons_list@.len() - i,
                {
                    match ConsInfo::from_info(&cons_list[i]).serialize() {
                        Some(j) => {
                            items.push(j);
                        },
                        None => {
                            assert(rs[i as int] is None);
                            return None;
                        },
                    }
                    i = i + 1;
                }
                assert(items_view(items@) =~= unwrap_all(rs));
                let mut m = start("type");
                put(&mut m, "name", string(name));
                put(&mut m, "arity", number(*arity as i128));
                put(&mut m, "cons", array(items));
                Some(object(m))
            },
            Command::TermEval(t) => match t.content.serialize() {
                Some(t2) => {
                    let mut m = start("eval");
                    put(&mut m, "term", t2);
                    Some(object(m))
                },
                None => None,
            },
            Command::Config { .. } => None,
            Command::TypeAlias { .. } => None,
        }
    }
}

impl DecoratedCommand {
    /// The encoding of the command, without its decorators.
    pub fn serialize(&self) -> (r: Option<Json>)
        ensures
            encoded(r, enc_command(self@.command.content)),
    {
        self.command.content.serialize()
    }
}

/// The encoding of a program: the array of the encodings of its commands.
pub fn serialize_program(program: &Vec<DecoratedCommand>) -> (r: Option<Json>)
    ensures
        encoded(r, enc_program(program_view(program@))),
{
    let ghost rs = enc_commands(program_view(program@));
    let mut items: Vec<Json> = Vec::new();
    let mut i: usize = 0;
    while i < program.len()
        invariant
            i <= program@.len(),
            rs == enc_commands(program_view(program@)),
            items@.len() == i,
            forall|j: int| 0 <= j < i ==> (#[trigger] rs[j]) == Some(items@[j]@),
        decreases program@.len() - i,
    {
        match program[i].serialize() {
            Some(j) => {
                items.push(j);
            },
            None => {
                assert(rs[i as int] is None);
                return None;
            },
        }
        i = i + 1;
    }
    assert(items_view(items@) =~= unwrap_all(rs));
    Some(array(items))
}

} // verus!
