//! Programs as the decoder reads them: those of the internal form go to
//! the surface form and back to themselves, and their surface form goes to
//! the internal form and back to itself.

use vstd::prelude::*;
use crate::language::{TypeModel, SType, CommandModel, ProgramModel};
use crate::serializer::json::JsonModel;
use crate::serializer::deserializer::dec_program;
use crate::serializer::round_trip::{bare_conses, bare_command, bare_program};
use crate::serializer::spans::lemma_decoded_is_bare;
use crate::processor::processor::{Arity, unfold_scheme};
use crate::processor::arity_processor::az_context;
use crate::processor::{to_internal, to_surface, internal_term, internal_bind};
use crate::processor::round_trip::{
    declared, bind_declared, names_kept, bind_names_kept, scheme_kept, command_kept,
    program_kept, lemma_surface_and_back,
};

verus! {

/// Whether a constructor scheme has the shape of the internal form: an
/// arrow to a type that is neither an arrow nor quantified, under a
/// quantifier only where it has variables.
pub open spec fn scheme_sound(s: SType) -> bool {
    (s.content is Poly ==> unfold_scheme(s).0.len() > 0) && (match unfold_scheme(s).1.content {
        TypeModel::Arr(payload, result) => !(result.content is Arr) && !(result.content is Poly),
        _ => false,
    })
}

/// Whether a command is one of the internal form, whatever its spans: its
/// terms have the shape of the internal form, its constructors are used as
/// the context declares them, and its generated names are the ones that the
/// way back generates.
pub open spec fn command_sound(c: Arity, command: CommandModel) -> bool {
    match command {
        CommandModel::TermEval(t) => internal_term(t) && declared(c, t) && names_kept(t),
        CommandModel::TermDef(b) => internal_bind(b) && bind_declared(c, b) && bind_names_kept(b),
        CommandModel::TypeDef { name, cons_list, arity } => forall|i: int|
            0 <= i < cons_list.len() ==> scheme_sound((#[trigger] cons_list[i]).1),
        _ => true,
    }
}

/// Whether every command of a program is one of the internal form, in the
/// context of the constructors declared above it.
pub open spec fn program_sound(p: ProgramModel) -> bool {
    forall|i: int|
        0 <= i < p.len() ==> command_sound(
            az_context(Seq::empty(), p.take(i)),
            (#[trigger] p[i]).command.content,
        )
}

/// A program of the internal form whose spans are all the sentinel is one
/// that the way to the surface and back keeps.
pub proof fn lemma_sound_is_kept(p: ProgramModel)
    requires
        program_sound(p),
        bare_program(p) == p,
    ensures
        program_kept(p),
{
    assert forall|i: int| 0 <= i < p.len() implies command_kept(
        az_context(Seq::empty(), p.take(i)),
        (#[trigger] p[i]).command.content,
    ) by {
        let command = p[i].command.content;
        assert(bare_program(p)[i] == p[i]);
        assert(bare_command(command) == command);
        match command {
            CommandModel::TypeDef { name, cons_list, arity } => {
                assert forall|k: int| 0 <= k < cons_list.len() implies scheme_kept(
                    (#[trigger] cons_list[k]).1,
                ) by {
                    assert(bare_conses(cons_list)[k] == cons_list[k]);
                    assert(scheme_sound(cons_list[k].1));
                }
            },
            _ => {},
        }
    }
}

/// Every program of the internal form that the decoder reads goes to the
/// surface form and back to itself.
pub proof fn lemma_read_and_back(j: JsonModel)
    requires
        dec_program(j) is Ok,
        program_sound(dec_program(j)->Ok_0),
    ensures
        to_surface(dec_program(j)->Ok_0) is Some,
        to_internal(to_surface(dec_program(j)->Ok_0).unwrap()) == Some(dec_program(j)->Ok_0),
{
    let p = dec_program(j)->Ok_0;
    lemma_decoded_is_bare(j);
    lemma_sound_is_kept(p);
    lemma_surface_and_back(p);
}

/// The surface form that a kept program goes to is kept by the way to the
/// internal form and back: it is the surface form of its own internal
/// form.
pub proof fn lemma_surface_form_is_kept(p: ProgramModel)
    requires
        program_kept(p),
    ensures
        to_surface(p) is Some,
        to_internal(to_surface(p).unwrap()) is Some,
        to_surface(to_internal(to_surface(p).unwrap()).unwrap()) == to_surface(p),
{
    lemma_surface_and_back(p);
}

} // verus!
