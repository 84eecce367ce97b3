//! The operator table, as the parser and the printer read it.

use vstd::prelude::*;
use crate::language::{TokenModel, token_text};
use crate::parser::term_parser::{prefix_power, infix_power};
use crate::printer::term_printer::op_pri;

verus! {

/// The printer gives every operator the priority with which the parser
/// binds it: a prefix operator that of its use with one operand, an infix
/// operator that of its use with two.
pub proof fn lemma_one_operator_table(t: TokenModel)
    ensures
        prefix_power(t) matches Some(p) ==> op_pri(token_text(t), 1) == Some(p),
        infix_power(t) matches Some(p) ==> op_pri(token_text(t), 2) == Some(p),
{
    reveal_strlit("-");
    reveal_strlit("not");
    reveal_strlit("*");
    reveal_strlit("/");
    reveal_strlit("+");
    reveal_strlit("==");
    reveal_strlit("<");
    reveal_strlit(">");
    reveal_strlit("<=");
    reveal_strlit(">=");
    reveal_strlit("&&");
    reveal_strlit("||");
    let s = token_text(t);
    if prefix_power(t) is Some || infix_power(t) is Some {
        assert(s.len() > 0);
        let c = s[0];
        assert("-"@[0] == '-' && "not"@[0] == 'n' && "*"@[0] == '*' && "/"@[0] == '/' && "+"@[0]
            == '+' && "=="@[0] == '=' && "<"@[0] == '<' && ">"@[0] == '>' && "<="@[0] == '<'
            && ">="@[0] == '>' && "&&"@[0] == '&' && "||"@[0] == '|');
    }
}

} // verus!
