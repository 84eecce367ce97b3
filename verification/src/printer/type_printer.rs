//! Types as text.

use vstd::prelude::*;
use crate::language::{Type, TypeModel, SpanType, SType, nodes_view, lemma_type_view};
use crate::text::{join, join_names, lemma_join_push};

verus! {

/// How tightly the outermost form of a type binds: arrows and quantifiers
/// least, then products, then named types with arguments, then atoms.
pub open spec fn type_prec(t: TypeModel) -> nat {
    match t {
        TypeModel::Arr(_, _) => 0,
        TypeModel::Poly { .. } => 0,
        TypeModel::Tuple(_) => 1,
        TypeModel::Ind { name, params } => if params.len() > 0 {
            2
        } else {
            3
        },
        _ => 3,
    }
}

/// The text of a type in a place that takes forms of precedence `level` or
/// above; a form that binds less tightly is put in parentheses.
///
/// An arrow takes a product on its left. A product takes named types. A
/// named type with one argument takes an atom before its name; with more
/// arguments it takes them in parentheses, separated by commas.
pub open spec fn type_text(t: TypeModel, level: nat) -> Seq<char>
    decreases t, (if type_prec(t) < level {
        1nat
    } else {
        0nat
    }),
{
    if type_prec(t) < level {
        "("@ + type_text(t, 0) + ")"@
    } else {
        match t {
            TypeModel::Bool => "bool"@,
            TypeModel::Unit => "unit"@,
            TypeModel::Int => "int"@,
            TypeModel::Var(name) => name,
            TypeModel::Ind { name, params } => if params.len() == 0 {
                name
            } else if params.len() == 1 {
                type_text(params[0].content, 3) + " "@ + name
            } else {
                "("@ + join(type_texts(params, 0), ", "@) + ") "@ + name
            },
            TypeModel::Tuple(ts) => join(type_texts(ts, 2), " * "@),
            TypeModel::Arr(a, b) => type_text(a.content, 1) + " -> "@ + type_text(b.content, 0),
            TypeModel::Poly { vars, body } => "\u{2200} "@ + join(vars, " "@) + ". "@ + type_text(
                body.content,
                0,
            ),
        }
    }
}

/// The texts of the types of a list, each at `level`.
pub open spec fn type_texts(ts: Seq<SType>, level: nat) -> Seq<Seq<char>>
    decreases ts, 2nat,
{
    Seq::new(
        ts.len(),
        |i: int|
            if 0 <= i < ts.len() {
                type_text(ts[i].content, level)
            } else {
                Seq::empty()
            },
    )
}

fn type_prec_of(ty: &Type) -> (p: u8)
    ensures
        p == type_prec(ty@),
{
    proof {
        lemma_type_view(ty);
    }
    match ty {
        Type::Arr(_, _) => 0,
        Type::Poly { .. } => 0,
        Type::Tuple(_) => 1,
        Type::Ind { name, params } => if params.len() > 0 {
            2
        } else {
            3
        },
        _ => 3,
    }
}

/// The texts of the types of a list at `level`, with `sep` between each two.
#[verifier::loop_isolation(false)]
fn types_to_string(ts: &Vec<SpanType>, level: u8, sep: &str) -> (s: String)
    ensures
        s@ == join(type_texts(nodes_view(ts@), level as nat), sep@),
    decreases *ts, 2nat,
{
    let ghost texts = type_texts(nodes_view(ts@), level as nat);
    let mut out = String::new();
    let mut i: usize = 0;
    assert(texts.take(0) =~= Seq::<Seq<char>>::empty());
    while i < ts.len()
        invariant
            i <= ts@.len(),
            out@ == join(texts.take(i as int), sep@),
        decreases ts@.len() - i,
    {
        let part = type_to_string_at(&ts[i].content, level);
        proof {
            lemma_join_push(texts.take(i as int), sep@, part@);
            assert(texts.take(i + 1) =~= texts.take(i as int).push(part@));
        }
        if i > 0 {
            out.append(sep);
        }
        out.append(part.as_str());
        assert(Seq::<char>::empty() + part@ =~= part@);
        i = i + 1;
    }
    assert(texts.take(ts@.len() as int) =~= texts);
    out
}

/// The text of a type at a precedence level.
pub fn type_to_string_at(ty: &Type, level: u8) -> (s: String)
    ensures
        s@ == type_text(ty@, level as nat),
    decreases *ty, (if type_prec(ty@) < level {
        1nat
    } else {
        0nat
    }),
{
    proof {
        lemma_type_view(ty);
    }
    if type_prec_of(ty) < level {
        let mut out = String::from_str("(");
        out.append(type_to_string_at(ty, 0).as_str());
        out.append(")");
        return out;
    }
    match ty {
        Type::Bool => String::from_str("bool"),
        Type::Unit => String::from_str("unit"),
        Type::Int => String::from_str("int"),
        Type::Var(name) => name.clone(),
        Type::Ind { name, params } => {
            if params.len() == 0 {
                name.clone()
            } else if params.len() == 1 {
                let mut out = type_to_string_at(&params[0].content, 3);
                out.append(" ");
                out.append(name.as_str());
                out
            } else {
                let mut out = String::from_str("(");
                out.append(types_to_string(params, 0, ", ").as_str());
                out.append(") ");
                out.append(name.as_str());
                out
            }
        },
        Type::Tuple(ts) => types_to_string(ts, 2, " * "),
        Type::Arr(a, b) => {
            let mut out = type_to_string_at(&a.content, 1);
            out.append(" -> ");
            out.append(type_to_string_at(&b.content, 0).as_str());
            out
        },
        Type::Poly { vars, body } => {
            let mut out = String::from_str("\u{2200} ");
            out.append(join_names(vars, " ").as_str());
            out.append(". ");
            out.append(type_to_string_at(&body.content, 0).as_str());
            out
        },
    }
}

impl Type {
    /// The text of a type.
    pub fn to_string(&self) -> (s: String)
        ensures
            s@ == type_text(self@, 0),
    {
        type_to_string_at(self, 0)
    }
}

} // verus!
