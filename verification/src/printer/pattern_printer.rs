//! Patterns as text.

use vstd::prelude::*;
use crate::language::{Pattern, PatternModel, SPattern, nodes_view, lemma_pattern_view};
use crate::text::{join, lemma_join_push};

verus! {

/// How tightly the outermost form of a pattern binds: `as` least, then a
/// constructor, then the basic patterns.
pub open spec fn pattern_prec(p: PatternModel) -> nat {
    match p {
        PatternModel::Var(inner, _) => if inner is Some {
            0
        } else {
            2
        },
        PatternModel::Cons(_, _) => 1,
        _ => 2,
    }
}

/// The text of a pattern in a place that takes forms of precedence `level`
/// or above; a form that binds less tightly is put in parentheses.
///
/// `as` takes a constructor pattern before it, a constructor takes a basic
/// pattern as its argument, and a tuple stands in parentheses with commas.
pub open spec fn pattern_text(p: PatternModel, level: nat) -> Seq<char>
    decreases p, (if pattern_prec(p) < level {
        1nat
    } else {
        0nat
    }),
{
    if pattern_prec(p) < level {
        "("@ + pattern_text(p, 0) + ")"@
    } else {
        match p {
            PatternModel::Wildcard => "_"@,
            PatternModel::Var(inner, name) => match inner {
                Some(q) => pattern_text(q.content, 1) + " as "@ + name,
                None => name,
            },
            PatternModel::Tuple(ps) => "("@ + join(pattern_texts(ps), ", "@) + ")"@,
            PatternModel::Cons(name, inner) => match inner {
                Some(q) => name + " "@ + pattern_text(q.content, 2),
                None => name,
            },
        }
    }
}

/// The texts of the patterns of a list.
pub open spec fn pattern_texts(ps: Seq<SPattern>) -> Seq<Seq<char>>
    decreases ps, 2nat,
{
    Seq::new(
        ps.len(),
        |i: int|
            if 0 <= i < ps.len() {
                pattern_text(ps[i].content, 0)
            } else {
                Seq::empty()
            },
    )
}

fn pattern_prec_of(p: &Pattern) -> (r: u8)
    ensures
        r == pattern_prec(p@),
{
    proof {
        lemma_pattern_view(p);
    }
    match p {
        Pattern::Var(inner, _) => if inner.is_some() {
            0
        } else {
            2
        },
        Pattern::Cons(_, _) => 1,
        _ => 2,
    }
}

/// The text of a pattern at a precedence level.
#[verifier::loop_isolation(false)]
pub fn pattern_to_string_at(p: &Pattern, level: u8) -> (s: String)
    ensures
        s@ == pattern_text(p@, level as nat),
    decreases *p, (if pattern_prec(p@) < level {
        1nat
    } else {
        0nat
    }),
{
    proof {
        lemma_pattern_view(p);
    }
    if pattern_prec_of(p) < level {
        let mut out = String::from_str("(");
        out.append(pattern_to_string_at(p, 0).as_str());
        out.append(")");
        return out;
    }
    match p {
        Pattern::Wildcard => String::from_str("_"),
        Pattern::Var(inner, name) => match inner {
            Some(q) => {
                let mut out = pattern_to_string_at(&q.content, 1);
                out.append(" as ");
                out.append(name.as_str());
                out
            },
            None => name.clone(),
        },
        Pattern::Tuple(ps) => {
            let ghost texts = pattern_texts(nodes_view(ps@));
            let mut list = String::new();
            let mut i: usize = 0;
            assert(texts.take(0) =~= Seq::<Seq<char>>::empty());
            while i < ps.len()
                invariant
                    i <= ps@.len(),
                    list@ == join(texts.take(i as int), ", "@),
                decreases ps@.len() - i,
            {
                let part = pattern_to_string_at(&ps[i].content, 0);
                proof {
                    lemma_join_push(texts.take(i as int), ", "@, part@);
                    assert(texts.take(i + 1) =~= texts.take(i as int).push(part@));
                }
                if i > 0 {
                    list.append(", ");
                }
                list.append(part.as_str());
                assert(Seq::<char>::empty() + part@ =~= part@);
                i = i + 1;
            }
            assert(texts.take(ps@.len() as int) =~= texts);
            let mut out = String::from_str("(");
            out.append(list.as_str());
            out.append(")");
            out
        },
        Pattern::Cons(name, inner) => match inner {
            Some(q) => {
                let mut out = name.clone();
                out.append(" ");
                out.append(pattern_to_string_at(&q.content, 2).as_str());
                out
            },
            None => name.clone(),
        },
    }
}

impl Pattern {
    /// The text of a pattern.
    pub fn to_string(&self) -> (s: String)
        ensures
            s@ == pattern_text(self@, 0),
    {
        pattern_to_string_at(self, 0)
    }
}

} // verus!
