//! What the normalisation passes share: lists of optional results, and the
//! schemes of data constructors.

use vstd::prelude::*;
use crate::language::{
    Type, TypeModel, SpanType, SType, WithSpan, Spanned, spanned, share, lemma_type_view,
};
use crate::text::{names_view, clone_names};

verus! {

/// The arity context of the passes: constructor names with the flag that
/// says whether the constructor is nullary, the most recent first.
pub type Arity = Seq<(Seq<char>, bool)>;

/// Whether every result of a list is present.
pub open spec fn all_some<T>(s: Seq<Option<T>>) -> bool {
    forall|i: int| 0 <= i < s.len() ==> (#[trigger] s[i]) is Some
}

/// The results of a list in which every result is present.
pub open spec fn unwrap_all<T>(s: Seq<Option<T>>) -> Seq<T> {
    Seq::new(s.len(), |i: int| s[i].unwrap())
}

/// The model of an optional node.
pub open spec fn opt_node<T: View>(r: Option<Spanned<T>>) -> Option<WithSpan<T::V>> {
    match r {
        Some(x) => Some(x@),
        None => None,
    }
}

/// The quantified variables of a constructor scheme, and what they are
/// quantified over; a scheme without quantifier has no variables.
pub open spec fn unfold_scheme(s: SType) -> (Seq<Seq<char>>, SType) {
    match s.content {
        TypeModel::Poly { vars, body } => (vars, *body),
        _ => (Seq::empty(), s),
    }
}

/// A type under the quantifier of `vars`, which carries the span of the
/// type; without variables, the type itself.
pub open spec fn build_scheme(vars: Seq<Seq<char>>, t: SType) -> SType {
    if vars.len() == 0 {
        t
    } else {
        WithSpan { span: t.span, content: TypeModel::Poly { vars, body: Box::new(t) } }
    }
}

/// Splits a constructor scheme into its quantified variables and its body.
pub fn unfold_cons_type(ty: &SpanType) -> (r: (Vec<String>, SpanType))
    ensures
        names_view(r.0@) == unfold_scheme(ty@).0,
        r.1@ == unfold_scheme(ty@).1,
{
    proof {
        lemma_type_view(&ty.content);
    }
    match &ty.content {
        Type::Poly { vars, body } => (clone_names(vars), share(body)),
        _ => {
            let vars: Vec<String> = Vec::new();
            assert(names_view(vars@) =~= Seq::<Seq<char>>::empty());
            (vars, share(ty))
        },
    }
}

/// Puts a constructor's body back under its quantified variables.
pub fn build_cons_type(vars: Vec<String>, ty: SpanType) -> (r: SpanType)
    ensures
        r@ == build_scheme(names_view(vars@), ty@),
{
    if vars.len() == 0 {
        ty
    } else {
        let span = ty.span;
        let p = Type::Poly { vars, body: ty };
        proof {
            lemma_type_view(&p);
        }
        spanned(span, p)
    }
}

} // verus!
