//! What the decoder reads carries no positions: every span of a decoded
//! program is the sentinel, and no command has decorators.

use vstd::prelude::*;
use crate::language::{
    PatternModel, SPattern, TypeModel, SType, TermModel, STerm, CaseSeq, CommandModel,
    DecoratedCommandModel, ProgramModel,
};
use crate::serializer::json::{JsonModel, Members, member, member_string};
use crate::serializer::deserializer::{
    DeserializeError, node, collect, lemma_member_decreases, names_at, pattern_at, pattern_maybe,
    patterns_at, dec_patterns, dec_pattern, type_at, types_at, dec_types, dec_type, term_at,
    terms_at, dec_terms, cases_at, dec_cases, dec_term, dec_term_tagged, dec_term_binding,
    dec_conses, conses_at, dec_command, dec_commands, dec_program,
};
use crate::serializer::round_trip::{
    bare_pattern, bare_patterns, bare_type, bare_types, bare_term, bare_terms, bare_cases,
    bare_bind, bare_conses, bare_command, bare_program,
};

verus! {

/// The values of a list of results that are one are the values of its
/// results, in their order.
pub proof fn lemma_collect_parts<T>(rs: Seq<Result<T, DeserializeError>>)
    ensures
        collect(rs) matches Ok(vs) ==> vs.len() == rs.len() && forall|i: int|
            0 <= i < rs.len() ==> (#[trigger] rs[i]) == Ok::<T, DeserializeError>(vs[i]),
    decreases rs.len(),
{
    if rs.len() > 0 {
        lemma_collect_parts(rs.drop_last());
        if let Ok(vs) = collect(rs) {
            let init = collect(rs.drop_last())->Ok_0;
            assert forall|i: int| 0 <= i < rs.len() implies (#[trigger] rs[i]) == Ok::<
                T,
                DeserializeError,
            >(vs[i]) by {
                if i < rs.len() - 1 {
                    assert(rs.drop_last()[i] == rs[i]);
                }
            }
        }
    }
}

/// The patterns under a member of a node carry the sentinel span
/// throughout.
pub proof fn lemma_pattern_at_bare(m: Members, key: Seq<char>)
    ensures
        pattern_at(m, key) matches Ok(p) ==> p == node(bare_pattern(p.content)),
        pattern_maybe(m, key) matches Ok(Some(p)) ==> *p == node(bare_pattern(p.content)),
        patterns_at(m, key) matches Ok(ps) ==> bare_patterns(ps) == ps,
    decreases m, 0nat,
{
    lemma_member_decreases(m, key);
    if let Some(c) = member(m, key) {
        lemma_pattern_bare(c);
        if let JsonModel::Array(items) = c {
            if let Ok(ps) = collect(dec_patterns(items)) {
                lemma_collect_parts(dec_patterns(items));
                assert forall|i: int| 0 <= i < ps.len() implies bare_patterns(ps)[i] == ps[i] by {
                    assert(dec_patterns(items)[i] == Ok::<SPattern, DeserializeError>(ps[i]));
                    lemma_pattern_bare(items[i]);
                }
                assert(bare_patterns(ps) =~= ps);
            }
        }
    }
}

/// A decoded pattern carries the sentinel span throughout.
pub proof fn lemma_pattern_bare(j: JsonModel)
    ensures
        dec_pattern(j) matches Ok(p) ==> bare_pattern(p) == p,
    decreases j, 1nat,
{
    if let JsonModel::Object(m) = j {
        lemma_pattern_at_bare(m, "content"@);
        lemma_pattern_at_bare(m, "fields"@);
    }
}

/// The types under a member of a node carry the sentinel span throughout.
pub proof fn lemma_type_at_bare(m: Members, key: Seq<char>, vars: Seq<Seq<char>>)
    ensures
        type_at(m, key, vars) matches Ok(t) ==> t == node(bare_type(t.content)),
        types_at(m, key, vars) matches Ok(ts) ==> bare_types(ts) == ts,
    decreases m, 0nat,
{
    lemma_member_decreases(m, key);
    if let Some(c) = member(m, key) {
        lemma_type_bare(c, vars);
        if let JsonModel::Array(items) = c {
            if let Ok(ts) = collect(dec_types(items, vars)) {
                lemma_collect_parts(dec_types(items, vars));
                assert forall|i: int| 0 <= i < ts.len() implies bare_types(ts)[i] == ts[i] by {
                    assert(dec_types(items, vars)[i] == Ok::<SType, DeserializeError>(ts[i]));
                    lemma_type_bare(items[i], vars);
                }
                assert(bare_types(ts) =~= ts);
            }
        }
    }
}

/// A decoded type carries the sentinel span throughout.
pub proof fn lemma_type_bare(j: JsonModel, vars: Seq<Seq<char>>)
    ensures
        dec_type(j, vars) matches Ok(t) ==> bare_type(t) == t,
    decreases j, 1nat,
{
    if let JsonModel::Object(m) = j {
        if let Some(tag) = member_string(m, "type"@) {
            if tag == "int"@ || tag == "unit"@ || tag == "bool"@ || tag == "var"@ {
            } else if tag == "poly"@ {
                if let Ok(bound) = names_at(m, "vars"@) {
                    lemma_type_at_bare(m, "body"@, bound);
                }
            } else if tag == "arrow"@ {
                lemma_type_at_bare(m, "s"@, vars);
                lemma_type_at_bare(m, "t"@, vars);
            } else if tag == "tuple"@ {
                lemma_type_at_bare(m, "fields"@, vars);
            } else if tag == "cons"@ {
                lemma_type_at_bare(m, "params"@, vars);
            }
        }
    }
}

/// The terms and cases under a member of a node carry the sentinel span
/// throughout.
pub proof fn lemma_term_at_bare(m: Members, key: Seq<char>)
    ensures
        term_at(m, key) matches Ok(t) ==> t == node(bare_term(t.content)),
        terms_at(m, key) matches Ok(ts) ==> bare_terms(ts) == ts,
        cases_at(m, key) matches Ok(cases) ==> bare_cases(cases) == cases,
    decreases m, 0nat,
{
    lemma_member_decreases(m, key);
    if let Some(c) = member(m, key) {
        lemma_term_bare(c);
        if let JsonModel::Array(items) = c {
            if let Ok(ts) = collect(dec_terms(items)) {
                lemma_collect_parts(dec_terms(items));
                assert forall|i: int| 0 <= i < ts.len() implies bare_terms(ts)[i] == ts[i] by {
                    assert(dec_terms(items)[i] == Ok::<STerm, DeserializeError>(ts[i]));
                    lemma_term_bare(items[i]);
                }
                assert(bare_terms(ts) =~= ts);
            }
            if let Ok(cases) = collect(dec_cases(items)) {
                lemma_collect_parts(dec_cases(items));
                assert forall|i: int| 0 <= i < cases.len() implies bare_cases(cases)[i]
                    == cases[i] by {
                    assert(dec_cases(items)[i] == Ok::<(SPattern, STerm), DeserializeError>(
                        cases[i],
                    ));
                    if let JsonModel::Object(inner) = items[i] {
                        lemma_pattern_at_bare(inner, "pattern"@);
                        lemma_term_at_bare(inner, "branch"@);
                    }
                }
                assert(bare_cases(cases) =~= cases);
            }
        }
    }
}

/// A decoded term carries the sentinel span throughout.
pub proof fn lemma_term_bare(j: JsonModel)
    ensures
        dec_term(j) matches Ok(t) ==> bare_term(t) == t,
    decreases j, 0nat,
{
    if let JsonModel::Object(m) = j {
        if let Some(tag) = member_string(m, "type"@) {
            lemma_term_tagged_bare(m, tag);
        }
    }
}

proof fn lemma_term_tagged_bare(m: Members, tag: Seq<char>)
    ensures
        dec_term_tagged(m, tag) matches Ok(t) ==> bare_term(t) == t,
    decreases m, 2nat,
{
    if tag == "int"@ || tag == "true"@ || tag == "false"@ || tag == "unit"@ {
    } else if tag == "if"@ {
        lemma_term_at_bare(m, "condition"@);
        lemma_term_at_bare(m, "true"@);
        lemma_term_at_bare(m, "false"@);
    } else if tag == "var"@ {
    } else if tag == "op"@ {
        lemma_term_at_bare(m, "operand"@);
    } else if tag == "tuple"@ {
        lemma_term_at_bare(m, "fields"@);
    } else {
        lemma_term_binding_bare(m, tag);
    }
}

proof fn lemma_term_binding_bare(m: Members, tag: Seq<char>)
    ensures
        dec_term_binding(m, tag) matches Ok(t) ==> bare_term(t) == t,
    decreases m, 1nat,
{
    if tag == "func"@ {
        lemma_term_at_bare(m, "content"@);
    } else if tag == "letrec"@ || tag == "let"@ {
        lemma_term_at_bare(m, "def"@);
        lemma_term_at_bare(m, "content"@);
        if let Ok(t) = dec_term_binding(m, tag) {
            let bind = t->Let_bind;
            assert(bare_bind(bind.content) == bind.content);
        }
    } else if tag == "match"@ {
        lemma_term_at_bare(m, "cases"@);
        lemma_term_at_bare(m, "value"@);
    } else if tag == "app"@ {
        lemma_term_at_bare(m, "func"@);
        lemma_term_at_bare(m, "param"@);
    } else if tag == "cons"@ {
        lemma_term_at_bare(m, "content"@);
    }
}

/// A decoded command carries the sentinel span throughout.
pub proof fn lemma_command_bare(j: JsonModel)
    ensures
        dec_command(j) matches Ok(c) ==> bare_command(c) == c,
{
    if let JsonModel::Object(m) = j {
        lemma_term_at_bare(m, "def"@);
        lemma_term_at_bare(m, "term"@);
        lemma_type_at_bare(m, "ty"@, Seq::empty());
        if let Some(JsonModel::Array(items)) = member(m, "cons"@) {
            if let Ok(cons_list) = collect(dec_conses(items)) {
                lemma_collect_parts(dec_conses(items));
                assert forall|i: int| 0 <= i < cons_list.len() implies bare_conses(cons_list)[i]
                    == cons_list[i] by {
                    assert(dec_conses(items)[i] == Ok::<(Seq<char>, SType), DeserializeError>(
                        cons_list[i],
                    ));
                    if let JsonModel::Object(inner) = items[i] {
                        lemma_type_at_bare(inner, "type"@, Seq::empty());
                    }
                }
                assert(bare_conses(cons_list) =~= cons_list);
            }
        }
    }
}

/// Every program that the decoder reads is a program as it is read back:
/// every span in it is the sentinel, and no command has decorators.
pub proof fn lemma_decoded_is_bare(j: JsonModel)
    ensures
        dec_program(j) matches Ok(p) ==> bare_program(p) == p,
{
    if let JsonModel::Array(items) = j {
        if let Ok(p) = collect(dec_commands(items)) {
            lemma_collect_parts(dec_commands(items));
            assert forall|i: int| 0 <= i < p.len() implies bare_program(p)[i] == p[i] by {
                assert(dec_commands(items)[i] == Ok::<DecoratedCommandModel, DeserializeError>(
                    p[i],
                ));
                lemma_command_bare(items[i]);
            }
            assert(bare_program(p) =~= p);
        }
    }
}

} // verus!
