//! From JSON to the internal form.
//!
//! Every node that is read carries the sentinel span from 0 to 1, every
//! binding is plain and without parameters, and every command is without
//! decorators. Members that a node does not need are ignored.

use vstd::prelude::*;
use crate::language::{
    Span, WithSpan, Spanned, spanned, Pattern, PatternModel, SpanPattern, SPattern, Type,
    TypeModel, SpanType, SType, Term, TermModel, SpanTerm, STerm, Bind, BindModel, BindTerm,
    BindTermModel, SBind, CaseSeq, Command, CommandModel, DecoratedCommand, DecoratedCommandModel,
    ProgramModel, program_view, cons_list_view, nodes_view, cases_view, lemma_pattern_view,
    lemma_type_view, lemma_term_view, lemma_bind_view,
};
use crate::text::names_view;
use crate::serializer::json::{
    Json, JsonModel, Members, member, member_index, member_string, member_number, lemma_key_index,
    find_member, find_string, find_number, items_view, members_view, lemma_json_view,
};

verus! {

/// Why a JSON value is not the encoding of a program.
#[derive(Clone, Copy, Debug, PartialEq, Eq, Structural)]
pub enum DeserializeError {
    /// A value is not of the kind that its place asks for, a member that a
    /// node needs is missing, or a number is out of range.
    ShapeMismatch,
    /// The `type` of a node is none of the kinds that its place allows.
    UnknownTag,
    /// The index of a type variable is not a position among the variables
    /// of the quantifier around it.
    IndexOutOfRange,
}

/// The span that every node read from JSON carries.
pub open spec fn sentinel() -> Span {
    Span { start: 0, end: 1 }
}

/// A node at the sentinel span.
pub open spec fn node<T>(content: T) -> WithSpan<T> {
    WithSpan { span: sentinel(), content }
}

/// Two results as one: the first error, or both values.
pub open spec fn and2<A, B>(a: Result<A, DeserializeError>, b: Result<B, DeserializeError>) -> Result<
    (A, B),
    DeserializeError,
> {
    match a {
        Err(e) => Err(e),
        Ok(x) => match b {
            Err(e) => Err(e),
            Ok(y) => Ok((x, y)),
        },
    }
}

/// Three results as one: the first error, or all three values.
pub open spec fn and3<A, B, C>(
    a: Result<A, DeserializeError>,
    b: Result<B, DeserializeError>,
    c: Result<C, DeserializeError>,
) -> Result<(A, B, C), DeserializeError> {
    match a {
        Err(e) => Err(e),
        Ok(x) => match b {
            Err(e) => Err(e),
            Ok(y) => match c {
                Err(e) => Err(e),
                Ok(z) => Ok((x, y, z)),
            },
        },
    }
}

/// The results of a list as one: the first error, or all values.
pub open spec fn collect<T>(rs: Seq<Result<T, DeserializeError>>) -> Result<Seq<T>, DeserializeError>
    decreases rs.len(),
{
    if rs.len() == 0 {
        Ok(Seq::empty())
    } else {
        match collect(rs.drop_last()) {
            Err(e) => Err(e),
            Ok(init) => match rs.last() {
                Ok(v) => Ok(init.push(v)),
                Err(e) => Err(e),
            },
        }
    }
}

/// An error among the first results of a list is the error of the list.
pub proof fn lemma_collect_err<T>(rs: Seq<Result<T, DeserializeError>>, k: int)
    requires
        0 <= k <= rs.len(),
        collect(rs.take(k)) is Err,
    ensures
        collect(rs) == collect(rs.take(k)),
    decreases rs.len() - k,
{
    if k < rs.len() {
        assert(rs.take(k + 1).drop_last() =~= rs.take(k));
        lemma_collect_err(rs, k + 1);
    } else {
        assert(rs.take(k) =~= rs);
    }
}

/// One more result behind the first results of a list.
pub proof fn lemma_collect_step<T>(rs: Seq<Result<T, DeserializeError>>, k: int)
    requires
        0 <= k < rs.len(),
    ensures
        collect(rs.take(k + 1)) == match collect(rs.take(k)) {
            Err(e) => Err(e),
            Ok(init) => match rs[k] {
                Ok(v) => Ok(init.push(v)),
                Err(e) => Err(e),
            },
        },
{
    assert(rs.take(k + 1).drop_last() =~= rs.take(k));
}

/// The value of a member is smaller than the members.
pub proof fn lemma_member_decreases(m: Members, key: Seq<char>)
    ensures
        member(m, key) matches Some(c) ==> decreases_to!(m => c),
{
    lemma_key_index(m, key, 0);
    if let Some(i) = member_index(m, key) {
        assert(decreases_to!(m => m[i as int]));
        assert(decreases_to!(m[i as int] => m[i as int].1));
    }
}

/// The string of a member that a node needs.
pub open spec fn string_at(m: Members, key: Seq<char>) -> Result<Seq<char>, DeserializeError> {
    match member_string(m, key) {
        Some(s) => Ok(s),
        None => Err(DeserializeError::ShapeMismatch),
    }
}

/// The strings of a member that holds an array of strings.
pub open spec fn names_at(m: Members, key: Seq<char>) -> Result<Seq<Seq<char>>, DeserializeError> {
    match member(m, key) {
        Some(JsonModel::Array(items)) => collect(dec_names(items)),
        _ => Err(DeserializeError::ShapeMismatch),
    }
}

/// The strings that the values of a list are.
pub open spec fn dec_names(items: Seq<JsonModel>) -> Seq<Result<Seq<char>, DeserializeError>> {
    Seq::new(
        items.len(),
        |i: int|
            match items[i] {
                JsonModel::String(s) => Ok(s),
                _ => Err(DeserializeError::ShapeMismatch),
            },
    )
}

// ---------------------------------------------------------------------------
// Patterns
// ---------------------------------------------------------------------------

/// The pattern under a member that a node needs.
pub open spec fn pattern_at(m: Members, key: Seq<char>) -> Result<SPattern, DeserializeError>
    decreases m, 0nat,
    via pattern_at_decreases
{
    match member(m, key) {
        Some(c) => {
            match dec_pattern(c) {
                Ok(p) => Ok(node(p)),
                Err(e) => Err(e),
            }
        },
        None => Err(DeserializeError::ShapeMismatch),
    }
}

#[via_fn]
proof fn pattern_at_decreases(m: Members, key: Seq<char>) {
    lemma_member_decreases(m, key);
}

/// The pattern under a member that a node may have.
pub open spec fn pattern_maybe(m: Members, key: Seq<char>) -> Result<
    Option<Box<SPattern>>,
    DeserializeError,
>
    decreases m, 0nat,
    via pattern_maybe_decreases
{
    match member(m, key) {
        Some(c) => {
            match dec_pattern(c) {
                Ok(p) => Ok(Some(Box::new(node(p)))),
                Err(e) => Err(e),
            }
        },
        None => Ok(None),
    }
}

#[via_fn]
proof fn pattern_maybe_decreases(m: Members, key: Seq<char>) {
    lemma_member_decreases(m, key);
}

/// The patterns under a member that holds an array.
pub open spec fn patterns_at(m: Members, key: Seq<char>) -> Result<Seq<SPattern>, DeserializeError>
    decreases m, 0nat,
    via patterns_at_decreases
{
    match member(m, key) {
        Some(JsonModel::Array(items)) => {
            collect(dec_patterns(items))
        },
        _ => Err(DeserializeError::ShapeMismatch),
    }
}

#[via_fn]
proof fn patterns_at_decreases(m: Members, key: Seq<char>) {
    lemma_member_decreases(m, key);
}

/// The patterns that the values of a list encode.
pub open spec fn dec_patterns(items: Seq<JsonModel>) -> Seq<Result<SPattern, DeserializeError>>
    decreases items, 1nat,
{
    Seq::new(
        items.len(),
        |i: int|
            if 0 <= i < items.len() {
                match dec_pattern(items[i]) {
                    Ok(p) => Ok(node(p)),
                    Err(e) => Err(e),
                }
            } else {
                Err(DeserializeError::ShapeMismatch)
            },
    )
}

/// The pattern that a value encodes.
pub open spec fn dec_pattern(j: JsonModel) -> Result<PatternModel, DeserializeError>
    decreases j, 0nat,
{
    match j {
        JsonModel::Object(m) => match member_string(m, "type"@) {
            None => Err(DeserializeError::ShapeMismatch),
            Some(tag) => if tag == "var"@ {
                match and2(string_at(m, "name"@), pattern_maybe(m, "content"@)) {
                    Ok((name, inner)) => Ok(PatternModel::Var(inner, name)),
                    Err(e) => Err(e),
                }
            } else if tag == "tuple"@ {
                match patterns_at(m, "fields"@) {
                    Ok(ps) => Ok(PatternModel::Tuple(ps)),
                    Err(e) => Err(e),
                }
            } else if tag == "underscore"@ {
                Ok(PatternModel::Wildcard)
            } else if tag == "cons"@ {
                match and2(string_at(m, "name"@), pattern_maybe(m, "content"@)) {
                    Ok((name, inner)) => Ok(PatternModel::Cons(name, inner)),
                    Err(e) => Err(e),
                }
            } else {
                Err(DeserializeError::UnknownTag)
            },
        },
        _ => Err(DeserializeError::ShapeMismatch),
    }
}

// ---------------------------------------------------------------------------
// Types
// ---------------------------------------------------------------------------

/// The type under a member that a node needs.
pub open spec fn type_at(m: Members, key: Seq<char>, vars: Seq<Seq<char>>) -> Result<
    SType,
    DeserializeError,
>
    decreases m, 0nat,
    via type_at_decreases
{
    match member(m, key) {
        Some(c) => {
            match dec_type(c, vars) {
                Ok(t) => Ok(node(t)),
                Err(e) => Err(e),
            }
        },
        None => Err(DeserializeError::ShapeMismatch),
    }
}

#[via_fn]
proof fn type_at_decreases(m: Members, key: Seq<char>, vars: Seq<Seq<char>>) {
    lemma_member_decreases(m, key);
}

/// The types under a member that holds an array.
pub open spec fn types_at(m: Members, key: Seq<char>, vars: Seq<Seq<char>>) -> Result<
    Seq<SType>,
    DeserializeError,
>
    decreases m, 0nat,
    via types_at_decreases
{
    match member(m, key) {
        Some(JsonModel::Array(items)) => {
            collect(dec_types(items, vars))
        },
        _ => Err(DeserializeError::ShapeMismatch),
    }
}

#[via_fn]
proof fn types_at_decreases(m: Members, key: Seq<char>, vars: Seq<Seq<char>>) {
    lemma_member_decreases(m, key);
}

/// The types that the values of a list encode.
pub open spec fn dec_types(items: Seq<JsonModel>, vars: Seq<Seq<char>>) -> Seq<
    Result<SType, DeserializeError>,
>
    decreases items, 1nat,
{
    Seq::new(
        items.len(),
        |i: int|
            if 0 <= i < items.len() {
                match dec_type(items[i], vars) {
                    Ok(t) => Ok(node(t)),
                    Err(e) => Err(e),
                }
            } else {
                Err(DeserializeError::ShapeMismatch)
            },
    )
}

/// The type that a value encodes under the quantified variables `vars`: a
/// variable is the one of `vars` at its index, and the body of a quantifier
/// is read under the variables of the quantifier.
pub open spec fn dec_type(j: JsonModel, vars: Seq<Seq<char>>) -> Result<TypeModel, DeserializeError>
    decreases j, 0nat,
{
    match j {
        JsonModel::Object(m) => match member_string(m, "type"@) {
            None => Err(DeserializeError::ShapeMismatch),
            Some(tag) => if tag == "int"@ {
                Ok(TypeModel::Int)
            } else if tag == "unit"@ {
                Ok(TypeModel::Unit)
            } else if tag == "bool"@ {
                Ok(TypeModel::Bool)
            } else if tag == "var"@ {
                match member_number(m, "index"@) {
                    Some(n) => if 0 <= n < vars.len() {
                        Ok(TypeModel::Var(vars[n as int]))
                    } else {
                        Err(DeserializeError::IndexOutOfRange)
                    },
                    None => Err(DeserializeError::ShapeMismatch),
                }
            } else if tag == "poly"@ {
                match names_at(m, "vars"@) {
                    Ok(bound) => match type_at(m, "body"@, bound) {
                        Ok(body) => Ok(TypeModel::Poly { vars: bound, body: Box::new(body) }),
                        Err(e) => Err(e),
                    },
                    Err(e) => Err(e),
                }
            } else if tag == "arrow"@ {
                match and2(type_at(m, "s"@, vars), type_at(m, "t"@, vars)) {
                    Ok((s, t)) => Ok(TypeModel::Arr(Box::new(s), Box::new(t))),
                    Err(e) => Err(e),
                }
            } else if tag == "tuple"@ {
                match types_at(m, "fields"@, vars) {
                    Ok(ts) => Ok(TypeModel::Tuple(ts)),
                    Err(e) => Err(e),
                }
            } else if tag == "cons"@ {
                match and2(string_at(m, "name"@), types_at(m, "params"@, vars)) {
                    Ok((name, params)) => Ok(TypeModel::Ind { name, params }),
                    Err(e) => Err(e),
                }
            } else {
                Err(DeserializeError::UnknownTag)
            },
        },
        _ => Err(DeserializeError::ShapeMismatch),
    }
}

// ---------------------------------------------------------------------------
// Terms
// ---------------------------------------------------------------------------

/// The term under a member that a node needs.
pub open spec fn term_at(m: Members, key: Seq<char>) -> Result<STerm, DeserializeError>
    decreases m, 0nat,
    via term_at_decreases
{
    match member(m, key) {
        Some(c) => {
            match dec_term(c) {
                Ok(t) => Ok(node(t)),
                Err(e) => Err(e),
            }
        },
        None => Err(DeserializeError::ShapeMismatch),
    }
}

#[via_fn]
proof fn term_at_decreases(m: Members, key: Seq<char>) {
    lemma_member_decreases(m, key);
}

/// The terms under a member that holds an array.
pub open spec fn terms_at(m: Members, key: Seq<char>) -> Result<Seq<STerm>, DeserializeError>
    decreases m, 0nat,
    via terms_at_decreases
{
    match member(m, key) {
        Some(JsonModel::Array(items)) => {
            collect(dec_terms(items))
        },
        _ => Err(DeserializeError::ShapeMismatch),
    }
}

#[via_fn]
proof fn terms_at_decreases(m: Members, key: Seq<char>) {
    lemma_member_decreases(m, key);
}

/// The terms that the values of a list encode.
pub open spec fn dec_terms(items: Seq<JsonModel>) -> Seq<Result<STerm, DeserializeError>>
    decreases items, 1nat,
{
    Seq::new(
        items.len(),
        |i: int|
            if 0 <= i < items.len() {
                match dec_term(items[i]) {
                    Ok(t) => Ok(node(t)),
                    Err(e) => Err(e),
                }
            } else {
                Err(DeserializeError::ShapeMismatch)
            },
    )
}

/// The match cases under a member that holds an array.
pub open spec fn cases_at(m: Members, key: Seq<char>) -> Result<CaseSeq, DeserializeError>
    decreases m, 0nat,
    via cases_at_decreases
{
    match member(m, key) {
        Some(JsonModel::Array(items)) => {
            collect(dec_cases(items))
        },
        _ => Err(DeserializeError::ShapeMismatch),
    }
}

#[via_fn]
proof fn cases_at_decreases(m: Members, key: Seq<char>) {
    lemma_member_decreases(m, key);
}

/// The match cases that the values of a list encode: each an object of a
/// pattern and a branch.
pub open spec fn dec_cases(items: Seq<JsonModel>) -> Seq<
    Result<(SPattern, STerm), DeserializeError>,
>
    decreases items, 1nat,
{
    Seq::new(
        items.len(),
        |i: int|
            if 0 <= i < items.len() {
                match items[i] {
                    JsonModel::Object(m) => and2(pattern_at(m, "pattern"@), term_at(m, "branch"@)),
                    _ => Err(DeserializeError::ShapeMismatch),
                }
            } else {
                Err(DeserializeError::ShapeMismatch)
            },
    )
}

/// A plain binding without parameters at the sentinel span.
pub open spec fn plain_bind(name: Seq<char>, def: STerm, is_rec: bool) -> SBind {
    node(
        BindModel { bind: BindTermModel::NormalBind(def), name, params: Seq::empty(), is_rec },
    )
}

/// The term that a value encodes.
pub open spec fn dec_term(j: JsonModel) -> Result<TermModel, DeserializeError>
    decreases j, 0nat,
{
    match j {
        JsonModel::Object(m) => match member_string(m, "type"@) {
            None => Err(DeserializeError::ShapeMismatch),
            Some(tag) => dec_term_tagged(m, tag),
        },
        _ => Err(DeserializeError::ShapeMismatch),
    }
}

/// The term that an object with the members `m` and the tag `tag` encodes.
pub open spec fn dec_term_tagged(m: Members, tag: Seq<char>) -> Result<TermModel, DeserializeError>
    decreases m, 2nat,
{
    if tag == "int"@ {
        match member_number(m, "value"@) {
            Some(n) => if i32::MIN <= n <= i32::MAX {
                Ok(TermModel::Int(n as i32))
            } else {
                Err(DeserializeError::ShapeMismatch)
            },
            None => Err(DeserializeError::ShapeMismatch),
        }
    } else if tag == "true"@ {
        Ok(TermModel::Bool(true))
    } else if tag == "false"@ {
        Ok(TermModel::Bool(false))
    } else if tag == "unit"@ {
        Ok(TermModel::Unit)
    } else if tag == "if"@ {
        match and3(term_at(m, "condition"@), term_at(m, "true"@), term_at(m, "false"@)) {
            Ok((c, a, b)) => Ok(TermModel::If(Box::new(c), Box::new(a), Box::new(b))),
            Err(e) => Err(e),
        }
    } else if tag == "var"@ {
        match string_at(m, "name"@) {
            Ok(name) => Ok(TermModel::Var(name)),
            Err(e) => Err(e),
        }
    } else if tag == "op"@ {
        match and2(string_at(m, "operator"@), terms_at(m, "operand"@)) {
            Ok((op, params)) => Ok(TermModel::PrimOp { op, params }),
            Err(e) => Err(e),
        }
    } else if tag == "tuple"@ {
        match terms_at(m, "fields"@) {
            Ok(ts) => Ok(TermModel::Tuple(ts)),
            Err(e) => Err(e),
        }
    } else {
        dec_term_binding(m, tag)
    }
}

/// The term that an object encodes whose tag is that of a function, a
/// binding, a match, an application or a constructor term.
pub open spec fn dec_term_binding(m: Members, tag: Seq<char>) -> Result<TermModel, DeserializeError>
    decreases m, 1nat,
{
    if tag == "func"@ {
        match and2(string_at(m, "name"@), term_at(m, "content"@)) {
            Ok((name, body)) => Ok(
                TermModel::Func { params: seq![name], body: Box::new(body) },
            ),
            Err(e) => Err(e),
        }
    } else if tag == "letrec"@ || tag == "let"@ {
        match and3(string_at(m, "name"@), term_at(m, "def"@), term_at(m, "content"@)) {
            Ok((name, def, body)) => Ok(
                TermModel::Let {
                    bind: Box::new(plain_bind(name, def, tag == "letrec"@)),
                    body: Box::new(body),
                },
            ),
            Err(e) => Err(e),
        }
    } else if tag == "match"@ {
        match and2(cases_at(m, "cases"@), term_at(m, "value"@)) {
            Ok((cases, def)) => Ok(TermModel::Match { def: Box::new(def), cases }),
            Err(e) => Err(e),
        }
    } else if tag == "app"@ {
        match and2(term_at(m, "func"@), term_at(m, "param"@)) {
            Ok((f, x)) => Ok(TermModel::App(Box::new(f), Box::new(x))),
            Err(e) => Err(e),
        }
    } else if tag == "cons"@ {
        match and2(string_at(m, "name"@), term_at(m, "content"@)) {
            Ok((cons, body)) => Ok(TermModel::Cons { cons, body: Box::new(body) }),
            Err(e) => Err(e),
        }
    } else {
        Err(DeserializeError::UnknownTag)
    }
}

// ---------------------------------------------------------------------------
// Commands
// ---------------------------------------------------------------------------

/// The constructor declarations that the values of a list encode: each an
/// object of a name and a scheme.
pub open spec fn dec_conses(items: Seq<JsonModel>) -> Seq<
    Result<(Seq<char>, SType), DeserializeError>,
> {
    Seq::new(
        items.len(),
        |i: int|
            match items[i] {
                JsonModel::Object(m) => and2(
                    string_at(m, "name"@),
                    type_at(m, "type"@, Seq::empty()),
                ),
                _ => Err(DeserializeError::ShapeMismatch),
            },
    )
}

/// The constructor declarations under a member that holds an array.
pub open spec fn conses_at(m: Members, key: Seq<char>) -> Result<
    Seq<(Seq<char>, SType)>,
    DeserializeError,
> {
    match member(m, key) {
        Some(JsonModel::Array(items)) => collect(dec_conses(items)),
        _ => Err(DeserializeError::ShapeMismatch),
    }
}

/// The number of type parameters under a member.
pub open spec fn arity_at(m: Members, key: Seq<char>) -> Result<usize, DeserializeError> {
    match member_number(m, key) {
        Some(n) => if 0 <= n <= usize::MAX {
            Ok(n as usize)
        } else {
            Err(DeserializeError::ShapeMismatch)
        },
        None => Err(DeserializeError::ShapeMismatch),
    }
}

/// The command that a value encodes.
pub open spec fn dec_command(j: JsonModel) -> Result<CommandModel, DeserializeError> {
    match j {
        JsonModel::Object(m) => match member_string(m, "type"@) {
            None => Err(DeserializeError::ShapeMismatch),
            Some(tag) => if tag == "func"@ || tag == "bind"@ {
                match and2(string_at(m, "name"@), term_at(m, "def"@)) {
                    Ok((name, def)) => Ok(
                        CommandModel::TermDef(plain_bind(name, def, tag == "func"@)),
                    ),
                    Err(e) => Err(e),
                }
            } else if tag == "declare"@ {
                match and2(string_at(m, "name"@), type_at(m, "ty"@, Seq::empty())) {
                    Ok((name, ty)) => Ok(CommandModel::TypeDeclare { name, ty }),
                    Err(e) => Err(e),
                }
            } else if tag == "type"@ {
                match and3(string_at(m, "name"@), arity_at(m, "arity"@), conses_at(m, "cons"@)) {
                    Ok((name, arity, cons_list)) => Ok(
                        CommandModel::TypeDef { name, cons_list, arity },
                    ),
                    Err(e) => Err(e),
                }
            } else if tag == "eval"@ {
                match term_at(m, "term"@) {
                    Ok(t) => Ok(CommandModel::TermEval(t)),
                    Err(e) => Err(e),
                }
            } else {
                Err(DeserializeError::UnknownTag)
            },
        },
        _ => Err(DeserializeError::ShapeMismatch),
    }
}

/// The commands that the values of a list encode, without decorators.
pub open spec fn dec_commands(items: Seq<JsonModel>) -> Seq<
    Result<DecoratedCommandModel, DeserializeError>,
> {
    Seq::new(
        items.len(),
        |i: int|
            match dec_command(items[i]) {
                Ok(c) => Ok(DecoratedCommandModel { command: node(c), decos: Seq::empty() }),
                Err(e) => Err(e),
            },
    )
}

/// The program that a value encodes: the commands of an array.
pub open spec fn dec_program(j: JsonModel) -> Result<ProgramModel, DeserializeError> {
    match j {
        JsonModel::Array(items) => collect(dec_commands(items)),
        _ => Err(DeserializeError::ShapeMismatch),
    }
}

// ---------------------------------------------------------------------------

/// The model of the node that a decoder gave.
pub open spec fn res_node<T: View>(r: Result<Spanned<T>, DeserializeError>) -> Result<
    WithSpan<T::V>,
    DeserializeError,
> {
    match r {
        Ok(x) => Ok(x@),
        Err(e) => Err(e),
    }
}

/// The model of the value that a decoder gave.
pub open spec fn res_view<T: View>(r: Result<T, DeserializeError>) -> Result<T::V, DeserializeError> {
    match r {
        Ok(x) => Ok(x@),
        Err(e) => Err(e),
    }
}

/// The models of the nodes that a list decoder gave.
pub open spec fn res_nodes<T: View>(r: Result<Vec<Spanned<T>>, DeserializeError>) -> Result<
    Seq<WithSpan<T::V>>,
    DeserializeError,
> {
    match r {
        Ok(v) => Ok(nodes_view(v@)),
        Err(e) => Err(e),
    }
}

/// The span that every node read from JSON carries.
pub fn default_span() -> (s: Span)
    ensures
        s == sentinel(),
{
    Span { start: 0, end: 1 }
}

fn get_string(members: &Vec<(String, Json)>, key: &str) -> (r: Result<String, DeserializeError>)
    ensures
        match r {
            Ok(s) => string_at(members_view(members@), key@) == Ok::<Seq<char>, DeserializeError>(
                s@,
            ),
            Err(e) => string_at(members_view(members@), key@) == Err::<
                Seq<char>,
                DeserializeError,
            >(e),
        },
{
    match find_string(members, key) {
        Some(s) => Ok(s),
        None => Err(DeserializeError::ShapeMismatch),
    }
}

/// The items of the array under a member.
fn get_array<'a>(members: &'a Vec<(String, Json)>, key: &str) -> (r: Option<&'a Vec<Json>>)
    ensures
        match r {
            Some(items) => member(members_view(members@), key@) == Some(
                JsonModel::Array(items_view(items@)),
            ) && decreases_to!(*members => *items),
            None => !(member(members_view(members@), key@) matches Some(JsonModel::Array(_))),
        },
{
    match find_member(members, key) {
        Some(i) => {
            proof {
                lemma_json_view(&members@[i as int].1);
            }
            match &members[i].1 {
                Json::Array(items) => Some(items),
                _ => None,
            }
        },
        None => None,
    }
}

/// The value under a member.
fn get_member<'a>(members: &'a Vec<(String, Json)>, key: &str) -> (r: Option<&'a Json>)
    ensures
        match r {
            Some(j) => member(members_view(members@), key@) == Some(j@) && decreases_to!(*members => *j),
            None => member(members_view(members@), key@) is None,
        },
{
    match find_member(members, key) {
        Some(i) => Some(&members[i].1),
        None => None,
    }
}

#[verifier::loop_isolation(false)]
fn get_names(members: &Vec<(String, Json)>, key: &str) -> (r: Result<Vec<String>, DeserializeError>)
    ensures
        match r {
            Ok(v) => names_at(members_view(members@), key@) == Ok::<
                Seq<Seq<char>>,
                DeserializeError,
            >(names_view(v@)),
            Err(e) => names_at(members_view(members@), key@) == Err::<
                Seq<Seq<char>>,
                DeserializeError,
            >(e),
        },
{
    match get_array(members, key) {
        Some(items) => {
            let ghost rs = dec_names(items_view(items@));
            let mut out: Vec<String> = Vec::new();
            let mut i: usize = 0;
            assert(rs.take(0) =~= Seq::empty());
            assert(names_view(out@) =~= Seq::<Seq<char>>::empty());
            while i < items.len()
                invariant
                    i <= items@.len(),
                    collect(rs.take(i as int)) == Ok::<Seq<Seq<char>>, DeserializeError>(
                        names_view(out@),
                    ),
                decreases items@.len() - i,
            {
                proof {
                    lemma_json_view(&items@[i as int]);
                    lemma_collect_step(rs, i as int);
                }
                match &items[i] {
                    Json::String(s) => {
                        let ghost before = names_view(out@);
                        out.push(s.clone());
                        assert(names_view(out@) =~= before.push(s@));
                    },
                    _ => {
                        proof {
                            lemma_collect_err(rs, i + 1);
                        }
                        return Err(DeserializeError::ShapeMismatch);
                    },
                }
                i = i + 1;
            }
            assert(rs.take(items@.len() as int) =~= rs);
            Ok(out)
        },
        None => Err(DeserializeError::ShapeMismatch),
    }
}

// Patterns

fn get_pattern(members: &Vec<(String, Json)>, key: &str) -> (r: Result<
    SpanPattern,
    DeserializeError,
>)
    ensures
        res_node(r) == pattern_at(members_view(members@), key@),
    decreases *members, 0nat,
{
    match get_member(members, key) {
        Some(c) => match Pattern::deserialize(c) {
            Ok(p) => Ok(spanned(default_span(), p)),
            Err(e) => Err(e),
        },
        None => Err(DeserializeError::ShapeMismatch),
    }
}

fn get_pattern_maybe(members: &Vec<(String, Json)>, key: &str) -> (r: Result<
    Option<SpanPattern>,
    DeserializeError,
>)
    ensures
        match r {
            Ok(Some(p)) => pattern_maybe(members_view(members@), key@) == Ok::<
                Option<Box<SPattern>>,
                DeserializeError,
            >(Some(Box::new(p@))),
            Ok(None) => pattern_maybe(members_view(members@), key@) == Ok::<
                Option<Box<SPattern>>,
                DeserializeError,
            >(None),
            Err(e) => pattern_maybe(members_view(members@), key@) == Err::<
                Option<Box<SPattern>>,
                DeserializeError,
            >(e),
        },
    decreases *members, 0nat,
{
    match get_member(members, key) {
        Some(c) => match Pattern::deserialize(c) {
            Ok(p) => Ok(Some(spanned(default_span(), p))),
            Err(e) => Err(e),
        },
        None => Ok(None),
    }
}

#[verifier::loop_isolation(false)]
fn get_patterns(members: &Vec<(String, Json)>, key: &str) -> (r: Result<
    Vec<SpanPattern>,
    DeserializeError,
>)
    ensures
        res_nodes(r) == patterns_at(members_view(members@), key@),
    decreases *members, 0nat,
{
    match get_array(members, key) {
        Some(items) => {
            let ghost rs = dec_patterns(items_view(items@));
            let mut out: Vec<SpanPattern> = Vec::new();
            let mut i: usize = 0;
            assert(rs.take(0) =~= Seq::empty());
            assert(nodes_view(out@) =~= Seq::<SPattern>::empty());
            while i < items.len()
                invariant
                    i <= items@.len(),
                    collect(rs.take(i as int)) == Ok::<Seq<SPattern>, DeserializeError>(
                        nodes_view(out@),
                    ),
                decreases items@.len() - i,
            {
                proof {
                    lemma_collect_step(rs, i as int);
                }
                match Pattern::deserialize(&items[i]) {
                    Ok(p) => {
                        let ghost before = nodes_view(out@);
                        let n = spanned(default_span(), p);
                        out.push(n);
                        assert(nodes_view(out@) =~= before.push(n@));
                    },
                    Err(e) => {
                        proof {
                            lemma_collect_err(rs, i + 1);
                        }
                        return Err(e);
                    },
                }
                i = i + 1;
            }
            assert(rs.take(items@.len() as int) =~= rs);
            Ok(out)
        },
        None => Err(DeserializeError::ShapeMismatch),
    }
}

/// The members and the tag of a node.
fn tag_of<'a>(json: &'a Json) -> (r: Option<(&'a Vec<(String, Json)>, String)>)
    ensures
        match r {
            Some((members, tag)) => json@ == JsonModel::Object(members_view(members@))
                && member_string(members_view(members@), "type"@) == Some(tag@) && decreases_to!(*json => *members),
            None => match json@ {
                JsonModel::Object(m) => member_string(m, "type"@) is None,
                _ => true,
            },
        },
{
    proof {
        lemma_json_view(json);
    }
    match json {
        Json::Object(members) => match find_string(members, "type") {
            Some(tag) => Some((members, tag)),
            None => None,
        },
        _ => None,
    }
}

fn is_tag(tag: &String, lit: &str) -> (b: bool)
    ensures
        b == (tag@ == lit@),
{
    *tag == String::from_str(lit)
}

impl Pattern {
    /// The pattern that a JSON value encodes.
    pub fn deserialize(json: &Json) -> (r: Result<Pattern, DeserializeError>)
        ensures
            res_view(r) == dec_pattern(json@),
        decreases *json, 0nat,
    {
        let (members, tag) = match tag_of(json) {
            Some(x) => x,
            None => {
                return Err(DeserializeError::ShapeMismatch);
            },
        };
        if is_tag(&tag, "var") {
            let name = match get_string(members, "name") {
                Ok(s) => s,
                Err(e) => {
                    return Err(e);
                },
            };
            match get_pattern_maybe(members, "content") {
                Ok(inner) => {
                    let p = Pattern::Var(inner, name);
                    proof {
                        lemma_pattern_view(&p);
                    }
                    Ok(p)
                },
                Err(e) => Err(e),
            }
        } else if is_tag(&tag, "tuple") {
            match get_patterns(members, "fields") {
                Ok(ps) => {
                    let p = Pattern::Tuple(ps);
                    proof {
                        lemma_pattern_view(&p);
                    }
                    Ok(p)
                },
                Err(e) => Err(e),
            }
        } else if is_tag(&tag, "underscore") {
            Ok(Pattern::Wildcard)
        } else if is_tag(&tag, "cons") {
            let name = match get_string(members, "name") {
                Ok(s) => s,
                Err(e) => {
                    return Err(e);
                },
            };
            match get_pattern_maybe(members, "content") {
                Ok(inner) => {
                    let p = Pattern::Cons(name, inner);
                    proof {
                        lemma_pattern_view(&p);
                    }
                    Ok(p)
                },
                Err(e) => Err(e),
            }
        } else {
            Err(DeserializeError::UnknownTag)
        }
    }
}

// Types

fn get_type(members: &Vec<(String, Json)>, key: &str, vars: &Vec<String>) -> (r: Result<
    SpanType,
    DeserializeError,
>)
    ensures
        res_node(r) == type_at(members_view(members@), key@, names_view(vars@)),
    decreases *members, 0nat,
{
    match get_member(members, key) {
        Some(c) => match deserialize_type_under(c, vars) {
            Ok(t) => Ok(spanned(default_span(), t)),
            Err(e) => Err(e),
        },
        None => Err(DeserializeError::ShapeMismatch),
    }
}

#[verifier::loop_isolation(false)]
fn get_types(members: &Vec<(String, Json)>, key: &str, vars: &Vec<String>) -> (r: Result<
    Vec<SpanType>,
    DeserializeError,
>)
    ensures
        res_nodes(r) == types_at(members_view(members@), key@, names_view(vars@)),
    decreases *members, 0nat,
{
    match get_array(members, key) {
        Some(items) => {
            let ghost rs = dec_types(items_view(items@), names_view(vars@));
            let mut out: Vec<SpanType> = Vec::new();
            let mut i: usize = 0;
            assert(rs.take(0) =~= Seq::empty());
            assert(nodes_view(out@) =~= Seq::<SType>::empty());
            while i < items.len()
                invariant
                    i <= items@.len(),
                    collect(rs.take(i as int)) == Ok::<Seq<SType>, DeserializeError>(
                        nodes_view(out@),
                    ),
                decreases items@.len() - i,
            {
                proof {
                    lemma_collect_step(rs, i as int);
                }
                match deserialize_type_under(&items[i], vars) {
                    Ok(t) => {
                        let ghost before = nodes_view(out@);
                        let n = spanned(default_span(), t);
                        out.push(n);
                        assert(nodes_view(out@) =~= before.push(n@));
                    },
                    Err(e) => {
                        proof {
                            lemma_collect_err(rs, i + 1);
                        }
                        return Err(e);
                    },
                }
                i = i + 1;
            }
            assert(rs.take(items@.len() as int) =~= rs);
            Ok(out)
        },
        None => Err(DeserializeError::ShapeMismatch),
    }
}

/// The type that a JSON value encodes under the quantified variables
/// `vars`.
pub fn deserialize_type_under(json: &Json, vars: &Vec<String>) -> (r: Result<
    Type,
    DeserializeError,
>)
    ensures
        res_view(r) == dec_type(json@, names_view(vars@)),
    decreases *json, 0nat,
{
    let (members, tag) = match tag_of(json) {
        Some(x) => x,
        None => {
            return Err(DeserializeError::ShapeMismatch);
        },
    };
    if is_tag(&tag, "int") {
        Ok(Type::Int)
    } else if is_tag(&tag, "unit") {
        Ok(Type::Unit)
    } else if is_tag(&tag, "bool") {
        Ok(Type::Bool)
    } else if is_tag(&tag, "var") {
        match find_number(members, "index") {
            Some(n) => {
                if 0 <= n && n < vars.len() as i128 {
                    Ok(Type::Var(vars[n as usize].clone()))
                } else {
                    Err(DeserializeError::IndexOutOfRange)
                }
            },
            None => Err(DeserializeError::ShapeMismatch),
        }
    } else if is_tag(&tag, "poly") {
        let bound = match get_names(members, "vars") {
            Ok(v) => v,
            Err(e) => {
                return Err(e);
            },
        };
        match get_type(members, "body", &bound) {
            Ok(body) => {
                let t = Type::Poly { vars: bound, body };
                proof {
                    lemma_type_view(&t);
                }
                Ok(t)
            },
            Err(e) => Err(e),
        }
    } else if is_tag(&tag, "arrow") {
        let s = match get_type(members, "s", vars) {
            Ok(t) => t,
            Err(e) => {
                return Err(e);
            },
        };
        match get_type(members, "t", vars) {
            Ok(t) => {
                let a = Type::Arr(s, t);
                proof {
                    lemma_type_view(&a);
                }
                Ok(a)
            },
            Err(e) => Err(e),
        }
    } else if is_tag(&tag, "tuple") {
        match get_types(members, "fields", vars) {
            Ok(ts) => {
                let t = Type::Tuple(ts);
                proof {
                    lemma_type_view(&t);
                }
                Ok(t)
            },
            Err(e) => Err(e),
        }
    } else if is_tag(&tag, "cons") {
        let name = match get_string(members, "name") {
            Ok(s) => s,
            Err(e) => {
                return Err(e);
            },
        };
        match get_types(members, "params", vars) {
            Ok(params) => {
                let t = Type::Ind { name, params };
                proof {
                    lemma_type_view(&t);
                }
                Ok(t)
            },
            Err(e) => Err(e),
        }
    } else {
        Err(DeserializeError::UnknownTag)
    }
}

impl Type {
    /// The type that a JSON value encodes, outside any quantifier.
    pub fn deserialize(json: &Json) -> (r: Result<Type, DeserializeError>)
        ensures
            res_view(r) == dec_type(json@, Seq::empty()),
    {
        let vars: Vec<String> = Vec::new();
        assert(names_view(vars@) =~= Seq::<Seq<char>>::empty());
        deserialize_type_under(json, &vars)
    }
}

// Terms

fn get_term(members: &Vec<(String, Json)>, key: &str) -> (r: Result<SpanTerm, DeserializeError>)
    ensures
        res_node(r) == term_at(members_view(members@), key@),
    decreases *members, 0nat,
{
    match get_member(members, key) {
        Some(c) => match Term::deserialize(c) {
            Ok(t) => Ok(spanned(default_span(), t)),
            Err(e) => Err(e),
        },
        None => Err(DeserializeError::ShapeMismatch),
    }
}

#[verifier::loop_isolation(false)]
fn get_terms(members: &Vec<(String, Json)>, key: &str) -> (r: Result<
    Vec<SpanTerm>,
    DeserializeError,
>)
    ensures
        res_nodes(r) == terms_at(members_view(members@), key@),
    decreases *members, 0nat,
{
    match get_array(members, key) {
        Some(items) => {
            let ghost rs = dec_terms(items_view(items@));
            let mut out: Vec<SpanTerm> = Vec::new();
            let mut i: usize = 0;
            assert(rs.take(0) =~= Seq::empty());
            assert(nodes_view(out@) =~= Seq::<STerm>::empty());
            while i < items.len()
                invariant
                    i <= items@.len(),
                    collect(rs.take(i as int)) == Ok::<Seq<STerm>, DeserializeError>(
                        nodes_view(out@),
                    ),
                decreases items@.len() - i,
            {
                proof {
                    lemma_collect_step(rs, i as int);
                }
                match Term::deserialize(&items[i]) {
                    Ok(t) => {
                        let ghost before = nodes_view(out@);
                        let n = spanned(default_span(), t);
                        out.push(n);
                        assert(nodes_view(out@) =~= before.push(n@));
                    },
                    Err(e) => {
                        proof {
                            lemma_collect_err(rs, i + 1);
                        }
                        return Err(e);
                    },
                }
                i = i + 1;
            }
            assert(rs.take(items@.len() as int) =~= rs);
            Ok(out)
        },
        None => Err(DeserializeError::ShapeMismatch),
    }
}

#[verifier::loop_isolation(false)]
fn get_cases(members: &Vec<(String, Json)>, key: &str) -> (r: Result<
    Vec<(SpanPattern, SpanTerm)>,
    DeserializeError,
>)
    ensures
        match r {
            Ok(v) => cases_at(members_view(members@), key@) == Ok::<CaseSeq, DeserializeError>(
                cases_view(v@),
            ),
            Err(e) => cases_at(members_view(members@), key@) == Err::<CaseSeq, DeserializeError>(
                e,
            ),
        },
    decreases *members, 0nat,
{
    match get_array(members, key) {
        Some(items) => {
            let ghost rs = dec_cases(items_view(items@));
            let mut out: Vec<(SpanPattern, SpanTerm)> = Vec::new();
            let mut i: usize = 0;
            assert(rs.take(0) =~= Seq::empty());
            assert(cases_view(out@) =~= Seq::<(SPattern, STerm)>::empty());
            while i < items.len()
                invariant
                    i <= items@.len(),
                    collect(rs.take(i as int)) == Ok::<CaseSeq, DeserializeError>(
                        cases_view(out@),
                    ),
                decreases items@.len() - i,
            {
                proof {
                    lemma_collect_step(rs, i as int);
                    lemma_json_view(&items@[i as int]);
                }
                let case_members = match &items[i] {
                    Json::Object(m) => m,
                    _ => {
                        proof {
                            lemma_collect_err(rs, i + 1);
                        }
                        return Err(DeserializeError::ShapeMismatch);
                    },
                };
                let p = match get_pattern(case_members, "pattern") {
                    Ok(p) => p,
                    Err(e) => {
                        proof {
                            lemma_collect_err(rs, i + 1);
                        }
                        return Err(e);
                    },
                };
                let t = match get_term(case_members, "branch") {
                    Ok(t) => t,
                    Err(e) => {
                        proof {
                            lemma_collect_err(rs, i + 1);
                        }
                        return Err(e);
                    },
                };
                let ghost before = cases_view(out@);
                let ghost cm = (p@, t@);
                out.push((p, t));
                assert(cases_view(out@) =~= before.push(cm));
                i = i + 1;
            }
            assert(rs.take(items@.len() as int) =~= rs);
            Ok(out)
        },
        None => Err(DeserializeError::ShapeMismatch),
    }
}

/// A plain binding without parameters at the sentinel span.
fn make_bind(name: String, def: SpanTerm, is_rec: bool) -> (b: crate::language::SpanBind)
    ensures
        b@ == plain_bind(name@, def@, is_rec),
{
    let params: Vec<String> = Vec::new();
    assert(names_view(params@) =~= Seq::<Seq<char>>::empty());
    let b = Bind { bind: BindTerm::NormalBind(def), name, params, is_rec };
    proof {
        lemma_bind_view(&b);
    }
    spanned(default_span(), b)
}

fn deserialize_tagged(members: &Vec<(String, Json)>, tag: &String) -> (r: Result<
    Term,
    DeserializeError,
>)
    ensures
        res_view(r) == dec_term_tagged(members_view(members@), tag@),
    decreases *members, 2nat,
{
    if is_tag(tag, "int") {
        match find_number(members, "value") {
            Some(n) => {
                if -2147483648 <= n && n <= 2147483647 {
                    Ok(Term::Int(n as i32))
                } else {
                    Err(DeserializeError::ShapeMismatch)
                }
            },
            None => Err(DeserializeError::ShapeMismatch),
        }
    } else if is_tag(tag, "true") {
        Ok(Term::Bool(true))
    } else if is_tag(tag, "false") {
        Ok(Term::Bool(false))
    } else if is_tag(tag, "unit") {
        Ok(Term::Unit)
    } else if is_tag(tag, "if") {
        let c = match get_term(members, "condition") {
            Ok(t) => t,
            Err(e) => {
                return Err(e);
            },
        };
        let a = match get_term(members, "true") {
            Ok(t) => t,
            Err(e) => {
                return Err(e);
            },
        };
        match get_term(members, "false") {
            Ok(b) => {
                let t = Term::If(c, a, b);
                proof {
                    lemma_term_view(&t);
                }
                Ok(t)
            },
            Err(e) => Err(e),
        }
    } else if is_tag(tag, "var") {
        match get_string(members, "name") {
            Ok(name) => Ok(Term::Var(name)),
            Err(e) => Err(e),
        }
    } else if is_tag(tag, "op") {
        let op = match get_string(members, "operator") {
            Ok(s) => s,
            Err(e) => {
                return Err(e);
            },
        };
        match get_terms(members, "operand") {
            Ok(params) => {
                let t = Term::PrimOp { op, params };
                proof {
                    lemma_term_view(&t);
                }
                Ok(t)
            },
            Err(e) => Err(e),
        }
    } else if is_tag(tag, "tuple") {
        match get_terms(members, "fields") {
            Ok(ts) => {
                let t = Term::Tuple(ts);
                proof {
                    lemma_term_view(&t);
                }
                Ok(t)
            },
            Err(e) => Err(e),
        }
    } else {
        deserialize_binding(members, tag)
    }
}

fn deserialize_binding(members: &Vec<(String, Json)>, tag: &String) -> (r: Result<
    Term,
    DeserializeError,
>)
    ensures
        res_view(r) == dec_term_binding(members_view(members@), tag@),
    decreases *members, 1nat,
{
    if is_tag(tag, "func") {
        let name = match get_string(members, "name") {
            Ok(s) => s,
            Err(e) => {
                return Err(e);
            },
        };
        match get_term(members, "content") {
            Ok(body) => {
                let mut params: Vec<String> = Vec::new();
                params.push(name);
                assert(names_view(params@) =~= seq![name@]);
                let t = Term::Func { params, body };
                proof {
                    lemma_term_view(&t);
                }
                Ok(t)
            },
            Err(e) => Err(e),
        }
    } else if is_tag(tag, "letrec") || is_tag(tag, "let") {
        let name = match get_string(members, "name") {
            Ok(s) => s,
            Err(e) => {
                return Err(e);
            },
        };
        let def = match get_term(members, "def") {
            Ok(t) => t,
            Err(e) => {
                return Err(e);
            },
        };
        match get_term(members, "content") {
            Ok(body) => {
                let t = Term::Let { bind: make_bind(name, def, is_tag(tag, "letrec")), body };
                proof {
                    lemma_term_view(&t);
                }
                Ok(t)
            },
            Err(e) => Err(e),
        }
    } else if is_tag(tag, "match") {
        let cases = match get_cases(members, "cases") {
            Ok(c) => c,
            Err(e) => {
                return Err(e);
            },
        };
        match get_term(members, "value") {
            Ok(def) => {
                let t = Term::Match { def, cases };
                proof {
                    lemma_term_view(&t);
                }
                Ok(t)
            },
            Err(e) => Err(e),
        }
    } else if is_tag(tag, "app") {
        let f = match get_term(members, "func") {
            Ok(t) => t,
            Err(e) => {
                return Err(e);
            },
        };
        match get_term(members, "param") {
            Ok(x) => {
                let t = Term::App(f, x);
                proof {
                    lemma_term_view(&t);
                }
                Ok(t)
            },
            Err(e) => Err(e),
        }
    } else if is_tag(tag, "cons") {
        let cons = match get_string(members, "name") {
            Ok(s) => s,
            Err(e) => {
                return Err(e);
            },
        };
        match get_term(members, "content") {
            Ok(body) => {
                let t = Term::Cons { cons, body };
                proof {
                    lemma_term_view(&t);
                }
                Ok(t)
            },
            Err(e) => Err(e),
        }
    } else {
        Err(DeserializeError::UnknownTag)
    }
}

impl Term {
    /// The term that a JSON value encodes.
    pub fn deserialize(json: &Json) -> (r: Result<Term, DeserializeError>)
        ensures
            res_view(r) == dec_term(json@),
        decreases *json, 0nat,
    {
        match tag_of(json) {
            Some((members, tag)) => deserialize_tagged(members, &tag),
            None => Err(DeserializeError::ShapeMismatch),
        }
    }
}

// Commands

#[verifier::loop_isolation(false)]
fn get_conses(members: &Vec<(String, Json)>, key: &str) -> (r: Result<
    Vec<(String, SpanType)>,
    DeserializeError,
>)
    ensures
        match r {
            Ok(v) => conses_at(members_view(members@), key@) == Ok::<
                Seq<(Seq<char>, SType)>,
                DeserializeError,
            >(cons_list_view(v@)),
            Err(e) => conses_at(members_view(members@), key@) == Err::<
                Seq<(Seq<char>, SType)>,
                DeserializeError,
            >(e),
        },
{
    match get_array(members, key) {
        Some(items) => {
            let ghost rs = dec_conses(items_view(items@));
            let mut out: Vec<(String, SpanType)> = Vec::new();
            let vars: Vec<String> = Vec::new();
            assert(names_view(vars@) =~= Seq::<Seq<char>>::empty());
            let mut i: usize = 0;
            assert(rs.take(0) =~= Seq::empty());
            assert(cons_list_view(out@) =~= Seq::<(Seq<char>, SType)>::empty());
            while i < items.len()
                invariant
                    i <= items@.len(),
                    collect(rs.take(i as int)) == Ok::<Seq<(Seq<char>, SType)>, DeserializeError>(
                        cons_list_view(out@),
                    ),
                decreases items@.len() - i,
            {
                proof {
                    lemma_collect_step(rs, i as int);
                    lemma_json_view(&items@[i as int]);
                }
                let cons_members = match &items[i] {
                    Json::Object(m) => m,
                    _ => {
                        proof {
                            lemma_collect_err(rs, i + 1);
                        }
                        return Err(DeserializeError::ShapeMismatch);
                    },
                };
                let name = match get_string(cons_members, "name") {
                    Ok(s) => s,
                    Err(e) => {
                        proof {
                            lemma_collect_err(rs, i + 1);
                        }
                        return Err(e);
                    },
                };
                let ty = match get_type(cons_members, "type", &vars) {
                    Ok(t) => t,
                    Err(e) => {
                        proof {
                            lemma_collect_err(rs, i + 1);
                        }
                        return Err(e);
                    },
                };
                let ghost before = cons_list_view(out@);
                let ghost cm = (name@, ty@);
                out.push((name, ty));
                assert(cons_list_view(out@) =~= before.push(cm));
                i = i + 1;
            }
            assert(rs.take(items@.len() as int) =~= rs);
            Ok(out)
        },
        None => Err(DeserializeError::ShapeMismatch),
    }
}

impl Command {
    /// The command that a JSON value encodes.
    pub fn deserialize(json: &Json) -> (r: Result<Command, DeserializeError>)
        ensures
            res_view(r) == dec_command(json@),
    {
        let (members, tag) = match tag_of(json) {
            Some(x) => x,
            None => {
                return Err(DeserializeError::ShapeMismatch);
            },
        };
        let vars: Vec<String> = Vec::new();
        assert(names_view(vars@) =~= Seq::<Seq<char>>::empty());
        if is_tag(&tag, "func") || is_tag(&tag, "bind") {
            let name = match get_string(members, "name") {
                Ok(s) => s,
                Err(e) => {
                    return Err(e);
                },
            };
            match get_term(members, "def") {
                Ok(def) => Ok(Command::TermDef(make_bind(name, def, is_tag(&tag, "func")))),
                Err(e) => Err(e),
            }
        } else if is_tag(&tag, "declare") {
            let name = match get_string(members, "name") {
                Ok(s) => s,
                Err(e) => {
                    return Err(e);
                },
            };
            match get_type(members, "ty", &vars) {
                Ok(ty) => Ok(Command::TypeDeclare { name, ty }),
                Err(e) => Err(e),
            }
        } else if is_tag(&tag, "type") {
            let name = match get_string(members, "name") {
                Ok(s) => s,
                Err(e) => {
                    return Err(e);
                },
            };
            let arity: usize = match find_number(members, "arity") {
                Some(n) => {
                    if 0 <= n && n <= usize::MAX as i128 {
                        n as usize
                    } else {
                        return Err(DeserializeError::ShapeMismatch);
                    }
                },
                None => {
                    return Err(DeserializeError::ShapeMismatch);
                },
            };
            match get_conses(members, "cons") {
                Ok(cons_list) => Ok(Command::TypeDef { name, cons_list, arity }),
                Err(e) => Err(e),
            }
        } else if is_tag(&tag, "eval") {
            match get_term(members, "term") {
                Ok(t) => Ok(Command::TermEval(t)),
                Err(e) => Err(e),
            }
        } else {
            Err(DeserializeError::UnknownTag)
        }
    }
}

impl DecoratedCommand {
    /// The command that a JSON value encodes, without decorators.
    pub fn deserialize(json: &Json) -> (r: Result<DecoratedCommand, DeserializeError>)
        ensures
            res_view(r) == match dec_command(json@) {
                Ok(c) => Ok::<DecoratedCommandModel, DeserializeError>(
                    DecoratedCommandModel { command: node(c), decos: Seq::empty() },
                ),
                Err(e) => Err::<DecoratedCommandModel, DeserializeError>(e),
            },
    {
        match Command::deserialize(json) {
            Ok(c) => {
                let decos: Vec<String> = Vec::new();
                assert(names_view(decos@) =~= Seq::<Seq<char>>::empty());
                Ok(DecoratedCommand { command: spanned(default_span(), c), decos })
            },
            Err(e) => Err(e),
        }
    }
}

/// The program that a JSON value encodes.
#[verifier::loop_isolation(false)]
pub fn deserialize_program(json: &Json) -> (r: Result<Vec<DecoratedCommand>, DeserializeError>)
    ensures
        match r {
            Ok(p) => dec_program(json@) == Ok::<ProgramModel, DeserializeError>(program_view(p@)),
            Err(e) => dec_program(json@) == Err::<ProgramModel, DeserializeError>(e),
        },
{
    proof {
        lemma_json_view(json);
    }
    match json {
        Json::Array(items) => {
            let ghost rs = dec_commands(items_view(items@));
            let mut out: Vec<DecoratedCommand> = Vec::new();
            let mut i: usize = 0;
            assert(rs.take(0) =~= Seq::empty());
            assert(program_view(out@) =~= Seq::<DecoratedCommandModel>::empty());
            while i < items.len()
                invariant
                    i <= items@.len(),
                    rs == dec_commands(items_view(items@)),
                    collect(rs.take(i as int)) == Ok::<ProgramModel, DeserializeError>(
                        program_view(out@),
                    ),
                decreases items@.len() - i,
            {
                proof {
                    lemma_collect_step(rs, i as int);
                }
                match DecoratedCommand::deserialize(&items[i]) {
                    Ok(c) => {
                        let ghost before = program_view(out@);
                        let ghost cm = c@;
                        out.push(c);
                        assert(program_view(out@) =~= before.push(cm));
                    },
                    Err(e) => {
                        proof {
                            lemma_collect_err(rs, i + 1);
                        }
                        return Err(e);
                    },
                }
                i = i + 1;
            }
            assert(rs.take(items@.len() as int) =~= rs);
            Ok(out)
        },
        _ => Err(DeserializeError::ShapeMismatch),
    }
}

} // verus!
