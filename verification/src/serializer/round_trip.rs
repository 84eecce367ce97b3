//! Reading what was written: the decoder gives back every program that the
//! encoder accepts, with every span the sentinel and without decorators.

use vstd::prelude::*;
use crate::language::{
    PatternModel, SPattern, TypeModel, SType, TermModel, STerm, BindModel, BindTermModel, CaseSeq,
    CommandModel, DecoratedCommandModel, ProgramModel,
};
use crate::processor::processor::{all_some, unwrap_all};
use crate::text::sig;
use crate::serializer::json::{
    JsonModel, Members, member, member_string, member_number, key_index, tagged,
};
use crate::serializer::serializer::{
    enc_pattern, enc_patterns, enc_type, enc_types, enc_names, enc_term, enc_terms, enc_cases,
    enc_conses, enc_command, enc_commands, enc_program, last_index,
};
use crate::serializer::deserializer::{
    DeserializeError, node, sentinel, collect, dec_names, dec_patterns, dec_pattern, dec_types,
    dec_type, dec_terms, dec_cases, dec_term, dec_term_tagged, dec_term_binding, plain_bind,
    dec_conses, dec_command, dec_commands, dec_program,
};

verus! {

/// The names of the kinds and of the members of the encoding differ from
/// one another: each has its own length, first, second and last character.
pub proof fn lemma_names_differ()
    ensures
        sig("type"@) == (4nat, 't', 'y', 'e'),
        sig("name"@) == (4nat, 'n', 'a', 'e'),
        sig("content"@) == (7nat, 'c', 'o', 't'),
        sig("fields"@) == (6nat, 'f', 'i', 's'),
        sig("index"@) == (5nat, 'i', 'n', 'x'),
        sig("s"@) == (1nat, 's', ' ', 's'),
        sig("t"@) == (1nat, 't', ' ', 't'),
        sig("params"@) == (6nat, 'p', 'a', 's'),
        sig("vars"@) == (4nat, 'v', 'a', 's'),
        sig("body"@) == (4nat, 'b', 'o', 'y'),
        sig("value"@) == (5nat, 'v', 'a', 'e'),
        sig("condition"@) == (9nat, 'c', 'o', 'n'),
        sig("true"@) == (4nat, 't', 'r', 'e'),
        sig("false"@) == (5nat, 'f', 'a', 'e'),
        sig("operator"@) == (8nat, 'o', 'p', 'r'),
        sig("operand"@) == (7nat, 'o', 'p', 'd'),
        sig("def"@) == (3nat, 'd', 'e', 'f'),
        sig("cases"@) == (5nat, 'c', 'a', 's'),
        sig("func"@) == (4nat, 'f', 'u', 'c'),
        sig("param"@) == (5nat, 'p', 'a', 'm'),
        sig("pattern"@) == (7nat, 'p', 'a', 'n'),
        sig("branch"@) == (6nat, 'b', 'r', 'h'),
        sig("ty"@) == (2nat, 't', 'y', 'y'),
        sig("arity"@) == (5nat, 'a', 'r', 'y'),
        sig("cons"@) == (4nat, 'c', 'o', 's'),
        sig("term"@) == (4nat, 't', 'e', 'm'),
        sig("var"@) == (3nat, 'v', 'a', 'r'),
        sig("tuple"@) == (5nat, 't', 'u', 'e'),
        sig("underscore"@) == (10nat, 'u', 'n', 'e'),
        sig("int"@) == (3nat, 'i', 'n', 't'),
        sig("unit"@) == (4nat, 'u', 'n', 't'),
        sig("bool"@) == (4nat, 'b', 'o', 'l'),
        sig("poly"@) == (4nat, 'p', 'o', 'y'),
        sig("arrow"@) == (5nat, 'a', 'r', 'w'),
        sig("if"@) == (2nat, 'i', 'f', 'f'),
        sig("op"@) == (2nat, 'o', 'p', 'p'),
        sig("letrec"@) == (6nat, 'l', 'e', 'c'),
        sig("let"@) == (3nat, 'l', 'e', 't'),
        sig("match"@) == (5nat, 'm', 'a', 'h'),
        sig("app"@) == (3nat, 'a', 'p', 'p'),
        sig("bind"@) == (4nat, 'b', 'i', 'd'),
        sig("declare"@) == (7nat, 'd', 'e', 'e'),
        sig("eval"@) == (4nat, 'e', 'v', 'l'),
{
    reveal_strlit("type");
    reveal_strlit("name");
    reveal_strlit("content");
    reveal_strlit("fields");
    reveal_strlit("index");
    reveal_strlit("s");
    reveal_strlit("t");
    reveal_strlit("params");
    reveal_strlit("vars");
    reveal_strlit("body");
    reveal_strlit("value");
    reveal_strlit("condition");
    reveal_strlit("true");
    reveal_strlit("false");
    reveal_strlit("operator");
    reveal_strlit("operand");
    reveal_strlit("def");
    reveal_strlit("cases");
    reveal_strlit("func");
    reveal_strlit("param");
    reveal_strlit("pattern");
    reveal_strlit("branch");
    reveal_strlit("ty");
    reveal_strlit("arity");
    reveal_strlit("cons");
    reveal_strlit("term");
    reveal_strlit("var");
    reveal_strlit("tuple");
    reveal_strlit("underscore");
    reveal_strlit("int");
    reveal_strlit("unit");
    reveal_strlit("bool");
    reveal_strlit("poly");
    reveal_strlit("arrow");
    reveal_strlit("if");
    reveal_strlit("op");
    reveal_strlit("letrec");
    reveal_strlit("let");
    reveal_strlit("match");
    reveal_strlit("app");
    reveal_strlit("bind");
    reveal_strlit("declare");
    reveal_strlit("eval");
}

/// A program as it is read back: every span is the sentinel.
pub open spec fn bare_pattern(p: PatternModel) -> PatternModel
    decreases p, 0nat,
{
    match p {
        PatternModel::Wildcard => p,
        PatternModel::Var(inner, name) => PatternModel::Var(
            match inner {
                Some(q) => Some(Box::new(node(bare_pattern(q.content)))),
                None => None,
            },
            name,
        ),
        PatternModel::Tuple(ps) => PatternModel::Tuple(bare_patterns(ps)),
        PatternModel::Cons(name, inner) => PatternModel::Cons(
            name,
            match inner {
                Some(q) => Some(Box::new(node(bare_pattern(q.content)))),
                None => None,
            },
        ),
    }
}

/// The patterns of a list as they are read back.
pub open spec fn bare_patterns(ps: Seq<SPattern>) -> Seq<SPattern>
    decreases ps, 1nat,
{
    Seq::new(
        ps.len(),
        |i: int|
            if 0 <= i < ps.len() {
                node(bare_pattern(ps[i].content))
            } else {
                arbitrary()
            },
    )
}

/// A type as it is read back.
pub open spec fn bare_type(t: TypeModel) -> TypeModel
    decreases t, 0nat,
{
    match t {
        TypeModel::Poly { vars, body } => TypeModel::Poly {
            vars,
            body: Box::new(node(bare_type(body.content))),
        },
        TypeModel::Tuple(ts) => TypeModel::Tuple(bare_types(ts)),
        TypeModel::Arr(a, b) => TypeModel::Arr(
            Box::new(node(bare_type(a.content))),
            Box::new(node(bare_type(b.content))),
        ),
        TypeModel::Ind { name, params } => TypeModel::Ind { name, params: bare_types(params) },
        _ => t,
    }
}

/// The types of a list as they are read back.
pub open spec fn bare_types(ts: Seq<SType>) -> Seq<SType>
    decreases ts, 1nat,
{
    Seq::new(
        ts.len(),
        |i: int|
            if 0 <= i < ts.len() {
                node(bare_type(ts[i].content))
            } else {
                arbitrary()
            },
    )
}

/// A term as it is read back.
pub open spec fn bare_term(t: TermModel) -> TermModel
    decreases t, 0nat,
{
    match t {
        TermModel::If(c, a, b) => TermModel::If(
            Box::new(node(bare_term(c.content))),
            Box::new(node(bare_term(a.content))),
            Box::new(node(bare_term(b.content))),
        ),
        TermModel::PrimOp { op, params } => TermModel::PrimOp { op, params: bare_terms(params) },
        TermModel::App(f, x) => TermModel::App(
            Box::new(node(bare_term(f.content))),
            Box::new(node(bare_term(x.content))),
        ),
        TermModel::Func { params, body } => TermModel::Func {
            params,
            body: Box::new(node(bare_term(body.content))),
        },
        TermModel::Tuple(ts) => TermModel::Tuple(bare_terms(ts)),
        TermModel::Match { def, cases } => TermModel::Match {
            def: Box::new(node(bare_term(def.content))),
            cases: bare_cases(cases),
        },
        TermModel::Cons { cons, body } => TermModel::Cons {
            cons,
            body: Box::new(node(bare_term(body.content))),
        },
        TermModel::Let { bind, body } => TermModel::Let {
            bind: Box::new(node(bare_bind(bind.content))),
            body: Box::new(node(bare_term(body.content))),
        },
        _ => t,
    }
}

/// The terms of a list as they are read back.
pub open spec fn bare_terms(ts: Seq<STerm>) -> Seq<STerm>
    decreases ts, 1nat,
{
    Seq::new(
        ts.len(),
        |i: int|
            if 0 <= i < ts.len() {
                node(bare_term(ts[i].content))
            } else {
                arbitrary()
            },
    )
}

/// The cases of a list as they are read back.
pub open spec fn bare_cases(cases: CaseSeq) -> CaseSeq
    decreases cases, 1nat,
{
    Seq::new(
        cases.len(),
        |i: int|
            if 0 <= i < cases.len() {
                (node(bare_pattern(cases[i].0.content)), node(bare_term(cases[i].1.content)))
            } else {
                arbitrary()
            },
    )
}

/// A binding as it is read back.
pub open spec fn bare_bind(b: BindModel) -> BindModel
    decreases b, 0nat,
{
    BindModel {
        bind: match b.bind {
            BindTermModel::NormalBind(d) => BindTermModel::NormalBind(node(bare_term(d.content))),
            BindTermModel::FuncBind(cases) => BindTermModel::FuncBind(bare_cases(cases)),
        },
        ..b
    }
}

/// The constructor declarations of a list as they are read back.
pub open spec fn bare_conses(cons_list: Seq<(Seq<char>, SType)>) -> Seq<(Seq<char>, SType)> {
    Seq::new(cons_list.len(), |i: int| (cons_list[i].0, node(bare_type(cons_list[i].1.content))))
}

/// A command as it is read back.
pub open spec fn bare_command(c: CommandModel) -> CommandModel {
    match c {
        CommandModel::TypeDef { name, cons_list, arity } => CommandModel::TypeDef {
            name,
            cons_list: bare_conses(cons_list),
            arity,
        },
        CommandModel::TypeAlias { name, def } => CommandModel::TypeAlias {
            name,
            def: node(bare_type(def.content)),
        },
        CommandModel::TermEval(t) => CommandModel::TermEval(node(bare_term(t.content))),
        CommandModel::TypeDeclare { name, ty } => CommandModel::TypeDeclare {
            name,
            ty: node(bare_type(ty.content)),
        },
        CommandModel::TermDef(b) => CommandModel::TermDef(node(bare_bind(b.content))),
        CommandModel::Config { .. } => c,
    }
}

/// A program as it is read back: every span is the sentinel, and no
/// command has decorators.
pub open spec fn bare_program(p: ProgramModel) -> ProgramModel {
    Seq::new(
        p.len(),
        |i: int|
            DecoratedCommandModel {
                command: node(bare_command(p[i].command.content)),
                decos: Seq::empty(),
            },
    )
}

/// A list of results that are all values is the list of the values.
pub proof fn lemma_collect_ok<T>(rs: Seq<Result<T, DeserializeError>>, vs: Seq<T>)
    requires
        rs.len() == vs.len(),
        forall|i: int| 0 <= i < rs.len() ==> (#[trigger] rs[i]) == Ok::<T, DeserializeError>(vs[i]),
    ensures
        collect(rs) == Ok::<Seq<T>, DeserializeError>(vs),
    decreases rs.len(),
{
    if rs.len() == 0 {
        assert(vs =~= Seq::empty());
    } else {
        lemma_collect_ok(rs.drop_last(), vs.drop_last());
        assert(vs.drop_last().push(vs.last()) =~= vs);
    }
}

/// The member at a position whose name no member before it has is the
/// member of that name.
pub proof fn lemma_member_at(m: Members, i: int)
    requires
        0 <= i < m.len(),
        forall|j: int| 0 <= j < i ==> (#[trigger] m[j]).0 != m[i].0,
    ensures
        member(m, m[i].0) == Some(m[i].1),
{
    lemma_key_from(m, m[i].0, 0, i);
}

proof fn lemma_key_from(m: Members, key: Seq<char>, from: int, i: int)
    requires
        0 <= from <= i < m.len(),
        m[i].0 == key,
        forall|j: int| from <= j < i ==> (#[trigger] m[j]).0 != key,
    ensures
        key_index(m, key, from as nat) == Some(i as nat),
    decreases i - from,
{
    if from < i {
        lemma_key_from(m, key, from + 1, i);
    }
}

/// A member that no member of a list names is missing.
pub proof fn lemma_member_none(m: Members, key: Seq<char>)
    requires
        forall|j: int| 0 <= j < m.len() ==> (#[trigger] m[j]).0 != key,
    ensures
        member(m, key) is None,
{
    lemma_key_none(m, key, 0);
}

proof fn lemma_key_none(m: Members, key: Seq<char>, from: int)
    requires
        0 <= from <= m.len(),
        forall|j: int| from <= j < m.len() ==> (#[trigger] m[j]).0 != key,
    ensures
        key_index(m, key, from as nat) is None,
    decreases m.len() - from,
{
    if from < m.len() {
        lemma_key_none(m, key, from + 1);
    }
}

/// The last position of a name that is in a list is a position at which
/// the name stands.
pub proof fn lemma_last_index(vars: Seq<Seq<char>>, name: Seq<char>)
    ensures
        -1 <= last_index(vars, name) < vars.len(),
        last_index(vars, name) >= 0 ==> vars[last_index(vars, name)] == name,
    decreases vars.len(),
{
    if vars.len() > 0 && vars.last() != name {
        lemma_last_index(vars.drop_last(), name);
    }
}

/// The members of an object with one member behind its kind.
proof fn lemma_members1(tag: Seq<char>, k1: Seq<char>, v1: JsonModel)
    requires
        k1 != "type"@,
    ensures
        member_string(tagged(tag).push((k1, v1)), "type"@) == Some(tag),
        member(tagged(tag).push((k1, v1)), k1) == Some(v1),
{
    let m = tagged(tag).push((k1, v1));
    lemma_member_at(m, 0);
    lemma_member_at(m, 1);
}

/// The members of an object with two members behind its kind.
proof fn lemma_members2(tag: Seq<char>, k1: Seq<char>, v1: JsonModel, k2: Seq<char>, v2: JsonModel)
    requires
        k1 != "type"@,
        k2 != "type"@,
        k2 != k1,
    ensures
        member_string(tagged(tag).push((k1, v1)).push((k2, v2)), "type"@) == Some(tag),
        member(tagged(tag).push((k1, v1)).push((k2, v2)), k1) == Some(v1),
        member(tagged(tag).push((k1, v1)).push((k2, v2)), k2) == Some(v2),
{
    let m = tagged(tag).push((k1, v1)).push((k2, v2));
    lemma_member_at(m, 0);
    lemma_member_at(m, 1);
    lemma_member_at(m, 2);
}

/// The members of an object with three members behind its kind.
proof fn lemma_members3(
    tag: Seq<char>,
    k1: Seq<char>,
    v1: JsonModel,
    k2: Seq<char>,
    v2: JsonModel,
    k3: Seq<char>,
    v3: JsonModel,
)
    requires
        k1 != "type"@,
        k2 != "type"@,
        k3 != "type"@,
        k2 != k1,
        k3 != k1,
        k3 != k2,
    ensures
        member_string(tagged(tag).push((k1, v1)).push((k2, v2)).push((k3, v3)), "type"@) == Some(
            tag,
        ),
        member(tagged(tag).push((k1, v1)).push((k2, v2)).push((k3, v3)), k1) == Some(v1),
        member(tagged(tag).push((k1, v1)).push((k2, v2)).push((k3, v3)), k2) == Some(v2),
        member(tagged(tag).push((k1, v1)).push((k2, v2)).push((k3, v3)), k3) == Some(v3),
{
    let m = tagged(tag).push((k1, v1)).push((k2, v2)).push((k3, v3));
    lemma_member_at(m, 0);
    lemma_member_at(m, 1);
    lemma_member_at(m, 2);
    lemma_member_at(m, 3);
}

/// The members of an object of two members without kind.
proof fn lemma_pair(k1: Seq<char>, v1: JsonModel, k2: Seq<char>, v2: JsonModel)
    requires
        k2 != k1,
    ensures
        member(seq![(k1, v1)].push((k2, v2)), k1) == Some(v1),
        member(seq![(k1, v1)].push((k2, v2)), k2) == Some(v2),
{
    let m = seq![(k1, v1)].push((k2, v2));
    lemma_member_at(m, 0);
    lemma_member_at(m, 1);
}

// ---------------------------------------------------------------------------

/// Reading the encoding of a pattern gives the pattern.
pub proof fn lemma_pattern_round_trip(p: PatternModel)
    requires
        enc_pattern(p) is Some,
    ensures
        dec_pattern(enc_pattern(p).unwrap()) == Ok::<PatternModel, DeserializeError>(
            bare_pattern(p),
        ),
    decreases p, 0nat,
{
    lemma_names_differ();
    match p {
        PatternModel::Wildcard => {
            lemma_member_at(tagged("underscore"@), 0);
        },
        PatternModel::Var(inner, name) => {
            match inner {
                None => {
                    let m = tagged("var"@).push(("name"@, JsonModel::String(name)));
                    lemma_members1("var"@, "name"@, JsonModel::String(name));
                    lemma_member_none(m, "content"@);
                },
                Some(q) => {
                    lemma_pattern_round_trip(q.content);
                    lemma_members2(
                        "var"@,
                        "name"@,
                        JsonModel::String(name),
                        "content"@,
                        enc_pattern(q.content).unwrap(),
                    );
                },
            }
        },
        PatternModel::Tuple(ps) => {
            let rs = enc_patterns(ps);
            let items = unwrap_all(rs);
            lemma_members1("tuple"@, "fields"@, JsonModel::Array(items));
            assert forall|i: int| 0 <= i < items.len() implies (#[trigger] dec_patterns(items)[i])
                == Ok::<SPattern, DeserializeError>(bare_patterns(ps)[i]) by {
                assert(rs[i] is Some);
                lemma_pattern_round_trip(ps[i].content);
            }
            lemma_collect_ok(dec_patterns(items), bare_patterns(ps));
        },
        PatternModel::Cons(name, inner) => {
            let q = inner.unwrap();
            lemma_pattern_round_trip(q.content);
            lemma_members2(
                "cons"@,
                "name"@,
                JsonModel::String(name),
                "content"@,
                enc_pattern(q.content).unwrap(),
            );
        },
    }
}

/// Reading the names of a list that was written gives the names.
pub proof fn lemma_names_round_trip(names: Seq<Seq<char>>)
    ensures
        collect(dec_names(enc_names(names))) == Ok::<Seq<Seq<char>>, DeserializeError>(names),
{
    lemma_collect_ok(dec_names(enc_names(names)), names);
}

/// Reading the encoding of a type under the same variables gives the type.
/// Every index that is written is a position among the variables.
pub proof fn lemma_type_round_trip(t: TypeModel, vars: Seq<Seq<char>>)
    requires
        enc_type(t, vars) is Some,
    ensures
        dec_type(enc_type(t, vars).unwrap(), vars) == Ok::<TypeModel, DeserializeError>(
            bare_type(t),
        ),
    decreases t, 0nat,
{
    lemma_names_differ();
    match t {
        TypeModel::Int => {
            lemma_member_at(tagged("int"@), 0);
        },
        TypeModel::Unit => {
            lemma_member_at(tagged("unit"@), 0);
        },
        TypeModel::Bool => {
            lemma_member_at(tagged("bool"@), 0);
        },
        TypeModel::Var(name) => {
            lemma_last_index(vars, name);
            lemma_members1(
                "var"@,
                "index"@,
                JsonModel::Number(last_index(vars, name)),
            );
        },
        TypeModel::Arr(a, b) => {
            lemma_type_round_trip(a.content, vars);
            lemma_type_round_trip(b.content, vars);
            lemma_members2(
                "arrow"@,
                "s"@,
                enc_type(a.content, vars).unwrap(),
                "t"@,
                enc_type(b.content, vars).unwrap(),
            );
        },
        TypeModel::Tuple(ts) => {
            lemma_types_round_trip(ts, vars);
            lemma_members1("tuple"@, "fields"@, JsonModel::Array(unwrap_all(enc_types(ts, vars))));
        },
        TypeModel::Ind { name, params } => {
            lemma_types_round_trip(params, vars);
            lemma_members2(
                "cons"@,
                "name"@,
                JsonModel::String(name),
                "params"@,
                JsonModel::Array(unwrap_all(enc_types(params, vars))),
            );
        },
        TypeModel::Poly { vars: bound, body } => {
            lemma_type_round_trip(body.content, bound);
            lemma_names_round_trip(bound);
            lemma_members2(
                "poly"@,
                "vars"@,
                JsonModel::Array(enc_names(bound)),
                "body"@,
                enc_type(body.content, bound).unwrap(),
            );
        },
    }
}

/// Reading the encodings of the types of a list gives the types.
pub proof fn lemma_types_round_trip(ts: Seq<SType>, vars: Seq<Seq<char>>)
    requires
        all_some(enc_types(ts, vars)),
    ensures
        collect(dec_types(unwrap_all(enc_types(ts, vars)), vars)) == Ok::<
            Seq<SType>,
            DeserializeError,
        >(bare_types(ts)),
    decreases ts, 1nat,
{
    let rs = enc_types(ts, vars);
    let items = unwrap_all(rs);
    assert forall|i: int| 0 <= i < items.len() implies (#[trigger] dec_types(items, vars)[i])
        == Ok::<SType, DeserializeError>(bare_types(ts)[i]) by {
        assert(rs[i] is Some);
        lemma_type_round_trip(ts[i].content, vars);
    }
    lemma_collect_ok(dec_types(items, vars), bare_types(ts));
}

/// Whether in a written type every index of a variable is a position among
/// the variables of the quantifier around it, of which there are `n` at
/// the outside.
pub open spec fn indices_in_range(j: JsonModel, n: nat) -> bool
    decreases j,
    via indices_in_range_decreases
{
    match j {
        JsonModel::Object(m) => if member_string(m, "type"@) == Some("var"@) {
            member_number(m, "index"@) matches Some(i) && 0 <= i < n
        } else if member_string(m, "type"@) == Some("poly"@) {
            match (member(m, "vars"@), member(m, "body"@)) {
                (Some(JsonModel::Array(vars)), Some(body)) => indices_in_range(body, vars.len()),
                _ => false,
            }
        } else {
            forall|k: int| 0 <= k < m.len() ==> indices_in_range((#[trigger] m[k]).1, n)
        },
        JsonModel::Array(items) => forall|k: int|
            0 <= k < items.len() ==> indices_in_range(#[trigger] items[k], n),
        _ => true,
    }
}

#[via_fn]
proof fn indices_in_range_decreases(j: JsonModel, n: nat) {
    match j {
        JsonModel::Object(m) => {
            crate::serializer::deserializer::lemma_member_decreases(m, "body"@);
        },
        _ => {},
    }
}

/// Every member of an object is in range where its kind is, and every
/// member behind the kind.
proof fn lemma_all_in_range(m: Members, n: nat)
    requires
        m.len() >= 1,
        m[0].1 is String,
        forall|k: int| 1 <= k < m.len() ==> indices_in_range((#[trigger] m[k]).1, n),
    ensures
        forall|k: int| 0 <= k < m.len() ==> indices_in_range((#[trigger] m[k]).1, n),
{
    reveal_with_fuel(indices_in_range, 2);
    assert forall|k: int| 0 <= k < m.len() implies indices_in_range((#[trigger] m[k]).1, n) by {
        if k == 0 {
            assert(indices_in_range(m[0].1, n));
        }
    }
}

/// In the encoding of a type under `vars`, every index of a variable is a
/// position among the variables of the quantifier around it.
pub proof fn lemma_indices_in_range(t: TypeModel, vars: Seq<Seq<char>>)
    requires
        enc_type(t, vars) is Some,
    ensures
        indices_in_range(enc_type(t, vars).unwrap(), vars.len()),
    decreases t, 0nat,
{
    lemma_names_differ();
    reveal_with_fuel(indices_in_range, 3);
    let n = vars.len();
    match t {
        TypeModel::Int => {
            lemma_member_at(tagged("int"@), 0);
            lemma_all_in_range(tagged("int"@), n);
        },
        TypeModel::Unit => {
            lemma_member_at(tagged("unit"@), 0);
            lemma_all_in_range(tagged("unit"@), n);
        },
        TypeModel::Bool => {
            lemma_member_at(tagged("bool"@), 0);
            lemma_all_in_range(tagged("bool"@), n);
        },
        TypeModel::Var(name) => {
            lemma_last_index(vars, name);
            lemma_members1("var"@, "index"@, JsonModel::Number(last_index(vars, name)));
        },
        TypeModel::Arr(a, b) => {
            lemma_indices_in_range(a.content, vars);
            lemma_indices_in_range(b.content, vars);
            lemma_members2(
                "arrow"@,
                "s"@,
                enc_type(a.content, vars).unwrap(),
                "t"@,
                enc_type(b.content, vars).unwrap(),
            );
            lemma_all_in_range(
                tagged("arrow"@).push(("s"@, enc_type(a.content, vars).unwrap())).push(
                    ("t"@, enc_type(b.content, vars).unwrap()),
                ),
                n,
            );
        },
        TypeModel::Tuple(ts) => {
            let items = unwrap_all(enc_types(ts, vars));
            lemma_members1("tuple"@, "fields"@, JsonModel::Array(items));
            assert forall|k: int| 0 <= k < items.len() implies indices_in_range(
                #[trigger] items[k],
                vars.len(),
            ) by {
                assert(enc_types(ts, vars)[k] is Some);
                lemma_indices_in_range(ts[k].content, vars);
            }
            assert(indices_in_range(JsonModel::Array(items), vars.len()));
            lemma_all_in_range(tagged("tuple"@).push(("fields"@, JsonModel::Array(items))), n);
        },
        TypeModel::Ind { name, params } => {
            let items = unwrap_all(enc_types(params, vars));
            lemma_members2(
                "cons"@,
                "name"@,
                JsonModel::String(name),
                "params"@,
                JsonModel::Array(items),
            );
            assert forall|k: int| 0 <= k < items.len() implies indices_in_range(
                #[trigger] items[k],
                vars.len(),
            ) by {
                assert(enc_types(params, vars)[k] is Some);
                lemma_indices_in_range(params[k].content, vars);
            }
            assert(indices_in_range(JsonModel::Array(items), vars.len()));
            lemma_all_in_range(
                tagged("cons"@).push(("name"@, JsonModel::String(name))).push(
                    ("params"@, JsonModel::Array(items)),
                ),
                n,
            );
        },
        TypeModel::Poly { vars: bound, body } => {
            lemma_indices_in_range(body.content, bound);
            lemma_members2(
                "poly"@,
                "vars"@,
                JsonModel::Array(enc_names(bound)),
                "body"@,
                enc_type(body.content, bound).unwrap(),
            );
        },
    }
}

/// Reading the encodings of the terms of a list gives the terms.
pub proof fn lemma_terms_round_trip(ts: Seq<STerm>)
    requires
        all_some(enc_terms(ts)),
    ensures
        collect(dec_terms(unwrap_all(enc_terms(ts)))) == Ok::<Seq<STerm>, DeserializeError>(
            bare_terms(ts),
        ),
    decreases ts, 1nat,
{
    let rs = enc_terms(ts);
    let items = unwrap_all(rs);
    assert forall|i: int| 0 <= i < items.len() implies (#[trigger] dec_terms(items)[i]) == Ok::<
        STerm,
        DeserializeError,
    >(bare_terms(ts)[i]) by {
        assert(rs[i] is Some);
        lemma_term_round_trip(ts[i].content);
    }
    lemma_collect_ok(dec_terms(items), bare_terms(ts));
}

/// Reading the encodings of the cases of a list gives the cases.
pub proof fn lemma_cases_round_trip(cases: CaseSeq)
    requires
        all_some(enc_cases(cases)),
    ensures
        collect(dec_cases(unwrap_all(enc_cases(cases)))) == Ok::<CaseSeq, DeserializeError>(
            bare_cases(cases),
        ),
    decreases cases, 1nat,
{
    lemma_names_differ();
    let rs = enc_cases(cases);
    let items = unwrap_all(rs);
    assert forall|i: int| 0 <= i < items.len() implies (#[trigger] dec_cases(items)[i]) == Ok::<
        (SPattern, STerm),
        DeserializeError,
    >(bare_cases(cases)[i]) by {
        assert(rs[i] is Some);
        lemma_pattern_round_trip(cases[i].0.content);
        lemma_term_round_trip(cases[i].1.content);
        lemma_pair(
            "pattern"@,
            enc_pattern(cases[i].0.content).unwrap(),
            "branch"@,
            enc_term(cases[i].1.content).unwrap(),
        );
    }
    lemma_collect_ok(dec_cases(items), bare_cases(cases));
}

/// Reading the encoding of a term gives the term.
#[verifier::rlimit(60)]
pub proof fn lemma_term_round_trip(t: TermModel)
    requires
        enc_term(t) is Some,
    ensures
        dec_term(enc_term(t).unwrap()) == Ok::<TermModel, DeserializeError>(bare_term(t)),
    decreases t, 2nat,
{
    lemma_names_differ();
    match t {
        TermModel::Int(i) => {
            lemma_members1("int"@, "value"@, JsonModel::Number(i as int));
        },
        TermModel::Bool(b) => {
            lemma_member_at(tagged("true"@), 0);
            lemma_member_at(tagged("false"@), 0);
        },
        TermModel::Unit => {
            lemma_member_at(tagged("unit"@), 0);
        },
        TermModel::If(c, a, b) => {
            lemma_term_round_trip(c.content);
            lemma_term_round_trip(a.content);
            lemma_term_round_trip(b.content);
            lemma_members3(
                "if"@,
                "condition"@,
                enc_term(c.content).unwrap(),
                "true"@,
                enc_term(a.content).unwrap(),
                "false"@,
                enc_term(b.content).unwrap(),
            );
        },
        TermModel::Var(name) => {
            lemma_members1("var"@, "name"@, JsonModel::String(name));
        },
        TermModel::PrimOp { op, params } => {
            lemma_terms_round_trip(params);
            lemma_members2(
                "op"@,
                "operator"@,
                JsonModel::String(op),
                "operand"@,
                JsonModel::Array(unwrap_all(enc_terms(params))),
            );
        },
        TermModel::Tuple(ts) => {
            lemma_terms_round_trip(ts);
            lemma_members1("tuple"@, "fields"@, JsonModel::Array(unwrap_all(enc_terms(ts))));
        },
        _ => {
            lemma_binding_round_trip(t);
        },
    }
}

/// Reading the encoding of an application gives the term.
proof fn lemma_app_round_trip(t: TermModel)
    requires
        enc_term(t) is Some,
        t is App,
    ensures
        dec_term(enc_term(t).unwrap()) == Ok::<TermModel, DeserializeError>(bare_term(t)),
    decreases t, 0nat,
{
    lemma_names_differ();
    reveal_with_fuel(dec_term, 3);
    reveal_with_fuel(dec_term_tagged, 3);
    reveal_with_fuel(dec_term_binding, 3);
    match t {
        TermModel::App(f, x) => {
            lemma_term_round_trip(f.content);
            lemma_term_round_trip(x.content);
            lemma_members2(
                "app"@,
                "func"@,
                enc_term(f.content).unwrap(),
                "param"@,
                enc_term(x.content).unwrap(),
            );            assert(dec_term(enc_term(t).unwrap()) == Ok::<TermModel, DeserializeError>(
                bare_term(t),
            ));
        },
        _ => {},
    }
}

/// Reading the encoding of a function gives the term.
proof fn lemma_func_round_trip(t: TermModel)
    requires
        enc_term(t) is Some,
        t is Func,
    ensures
        dec_term(enc_term(t).unwrap()) == Ok::<TermModel, DeserializeError>(bare_term(t)),
    decreases t, 0nat,
{
    lemma_names_differ();
    reveal_with_fuel(dec_term, 3);
    reveal_with_fuel(dec_term_tagged, 3);
    reveal_with_fuel(dec_term_binding, 3);
    match t {
        TermModel::Func { params, body } => {
            lemma_term_round_trip(body.content);
            lemma_members2(
                "func"@,
                "name"@,
                JsonModel::String(params[0]),
                "content"@,
                enc_term(body.content).unwrap(),
            );
            assert(params =~= seq![params[0]]);
            assert(dec_term(enc_term(t).unwrap()) == Ok::<TermModel, DeserializeError>(
                bare_term(t),
            ));
        },
        _ => {},
    }
}

/// Reading the encoding of a match gives the term.
proof fn lemma_match_round_trip(t: TermModel)
    requires
        enc_term(t) is Some,
        t is Match,
    ensures
        dec_term(enc_term(t).unwrap()) == Ok::<TermModel, DeserializeError>(bare_term(t)),
    decreases t, 0nat,
{
    lemma_names_differ();
    reveal_with_fuel(dec_term, 3);
    reveal_with_fuel(dec_term_tagged, 3);
    reveal_with_fuel(dec_term_binding, 3);
    match t {
        TermModel::Match { def, cases } => {
            lemma_term_round_trip(def.content);
            lemma_cases_round_trip(cases);
            lemma_members2(
                "match"@,
                "cases"@,
                JsonModel::Array(unwrap_all(enc_cases(cases))),
                "value"@,
                enc_term(def.content).unwrap(),
            );            assert(dec_term(enc_term(t).unwrap()) == Ok::<TermModel, DeserializeError>(
                bare_term(t),
            ));
        },
        _ => {},
    }
}

/// Reading the encoding of a constructor term gives the term.
proof fn lemma_cons_round_trip(t: TermModel)
    requires
        enc_term(t) is Some,
        t is Cons,
    ensures
        dec_term(enc_term(t).unwrap()) == Ok::<TermModel, DeserializeError>(bare_term(t)),
    decreases t, 0nat,
{
    lemma_names_differ();
    reveal_with_fuel(dec_term, 3);
    reveal_with_fuel(dec_term_tagged, 3);
    reveal_with_fuel(dec_term_binding, 3);
    match t {
        TermModel::Cons { cons, body } => {
            lemma_term_round_trip(body.content);
            lemma_members2(
                "cons"@,
                "name"@,
                JsonModel::String(cons),
                "content"@,
                enc_term(body.content).unwrap(),
            );
        },
        _ => {},
    }
}

/// Reading the encoding of a binding gives the term.
proof fn lemma_let_round_trip(t: TermModel)
    requires
        enc_term(t) is Some,
        t is Let,
    ensures
        dec_term(enc_term(t).unwrap()) == Ok::<TermModel, DeserializeError>(bare_term(t)),
    decreases t, 0nat,
{
    lemma_names_differ();
    reveal_with_fuel(dec_term, 3);
    reveal_with_fuel(dec_term_tagged, 3);
    reveal_with_fuel(dec_term_binding, 3);
    match t {
        TermModel::Let { bind, body } => {
            let d = bind.content.bind->NormalBind_0;
            lemma_term_round_trip(d.content);
            lemma_term_round_trip(body.content);
            lemma_members3(
                if bind.content.is_rec {
                    "letrec"@
                } else {
                    "let"@
                },
                "name"@,
                JsonModel::String(bind.content.name),
                "def"@,
                enc_term(d.content).unwrap(),
                "content"@,
                enc_term(body.content).unwrap(),
            );
            assert(bind.content.params =~= Seq::empty());
            assert(bare_bind(bind.content) == plain_bind(
                bind.content.name,
                node(bare_term(d.content)),
                bind.content.is_rec,
            ).content);
            assert(dec_term(enc_term(t).unwrap()) == Ok::<TermModel, DeserializeError>(
                bare_term(t),
            ));
        },
        _ => {},
    }
}

/// Reading the encoding of a function, a binding, a match, an application
/// or a constructor term gives the term.
pub proof fn lemma_binding_round_trip(t: TermModel)
    requires
        enc_term(t) is Some,
        t is Func || t is Let || t is Match || t is App || t is Cons,
    ensures
        dec_term(enc_term(t).unwrap()) == Ok::<TermModel, DeserializeError>(bare_term(t)),
    decreases t, 1nat,
{
    match t {
        TermModel::App(_, _) => {
            lemma_app_round_trip(t);
        },
        TermModel::Func { .. } => {
            lemma_func_round_trip(t);
        },
        TermModel::Match { .. } => {
            lemma_match_round_trip(t);
        },
        TermModel::Cons { .. } => {
            lemma_cons_round_trip(t);
        },
        TermModel::Let { .. } => {
            lemma_let_round_trip(t);
        },
        _ => {},
    }
}

/// Reading the encoding of a command gives the command.
#[verifier::rlimit(60)]
pub proof fn lemma_command_round_trip(c: CommandModel)
    requires
        enc_command(c) is Some,
    ensures
        dec_command(enc_command(c).unwrap()) == Ok::<CommandModel, DeserializeError>(
            bare_command(c),
        ),
{
    lemma_names_differ();
    match c {
        CommandModel::TermDef(b) => {
            let d = b.content.bind->NormalBind_0;
            lemma_term_round_trip(d.content);
            lemma_members2(
                if b.content.is_rec {
                    "func"@
                } else {
                    "bind"@
                },
                "name"@,
                JsonModel::String(b.content.name),
                "def"@,
                enc_term(d.content).unwrap(),
            );
            assert(b.content.params =~= Seq::empty());
        },
        CommandModel::TypeDeclare { name, ty } => {
            lemma_type_round_trip(ty.content, Seq::empty());
            lemma_members2(
                "declare"@,
                "name"@,
                JsonModel::String(name),
                "ty"@,
                enc_type(ty.content, Seq::empty()).unwrap(),
            );
        },
        CommandModel::TypeDef { name, cons_list, arity } => {
            let rs = enc_conses(cons_list);
            let items = unwrap_all(rs);
            assert forall|i: int| 0 <= i < items.len() implies (#[trigger] dec_conses(items)[i])
                == Ok::<(Seq<char>, SType), DeserializeError>(bare_conses(cons_list)[i]) by {
                assert(rs[i] is Some);
                lemma_type_round_trip(cons_list[i].1.content, Seq::empty());
                lemma_pair(
                    "name"@,
                    JsonModel::String(cons_list[i].0),
                    "type"@,
                    enc_type(cons_list[i].1.content, Seq::empty()).unwrap(),
                );
            }
            lemma_collect_ok(dec_conses(items), bare_conses(cons_list));
            lemma_members3(
                "type"@,
                "name"@,
                JsonModel::String(name),
                "arity"@,
                JsonModel::Number(arity as int),
                "cons"@,
                JsonModel::Array(items),
            );
        },
        CommandModel::TermEval(t) => {
            lemma_term_round_trip(t.content);
            lemma_members1("eval"@, "term"@, enc_term(t.content).unwrap());
        },
        _ => {},
    }
}

/// Reading the encoding of a program gives the program, with every span
/// the sentinel and without decorators.
pub proof fn lemma_json_round_trip(p: ProgramModel)
    requires
        enc_program(p) is Some,
    ensures
        dec_program(enc_program(p).unwrap()) == Ok::<ProgramModel, DeserializeError>(
            bare_program(p),
        ),
{
    let rs = enc_commands(p);
    let items = unwrap_all(rs);
    assert forall|i: int| 0 <= i < items.len() implies (#[trigger] dec_commands(items)[i]) == Ok::<
        DecoratedCommandModel,
        DeserializeError,
    >(bare_program(p)[i]) by {
        assert(rs[i] is Some);
        lemma_command_round_trip(p[i].command.content);
    }
    lemma_collect_ok(dec_commands(items), bare_program(p));
}

} // verus!
