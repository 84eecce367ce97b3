//! Parenthesised regions: the tokens of a region are the tokens of its
//! interior, read as a text of its own.

use vstd::prelude::*;
use crate::language::{Span, TokenModel, TokenSeq};
use crate::text::{white_space, ident_start, ident_continue, is_digit, has_prefix_at, left};
use crate::lexer::{
    LexError, Lexeme, ident_run, digit_run, mark_at, number_at, simple_token, span_of, after,
    lex_items, lex, lemma_closes,
};

verus! {

/// A token with every span in it moved `k` characters to the left.
pub open spec fn moved_token(t: TokenModel, k: nat) -> TokenModel
    decreases t, 0nat,
{
    match t {
        TokenModel::Parens(inner) => TokenModel::Parens(moved(inner, k)),
        _ => t,
    }
}

/// Tokens with every span moved `k` characters to the left.
pub open spec fn moved(ts: TokenSeq, k: nat) -> TokenSeq
    decreases ts, 1nat,
{
    Seq::new(
        ts.len(),
        |i: int|
            if 0 <= i < ts.len() {
                (
                    moved_token(ts[i].0, k),
                    Span { start: (ts[i].1.start - k) as usize, end: (ts[i].1.end - k) as usize },
                )
            } else {
                arbitrary()
            },
    )
}

/// One token in front of moved tokens.
proof fn lemma_moved_first(t: TokenModel, span: Span, rest: TokenSeq, k: nat)
    ensures
        moved(seq![(t, span)] + rest, k) == seq![
            (moved_token(t, k), Span { start: (span.start - k) as usize, end: (span.end - k) as usize }),
        ] + moved(rest, k),
{
    assert(moved(seq![(t, span)] + rest, k) =~= seq![
        (moved_token(t, k), Span { start: (span.start - k) as usize, end: (span.end - k) as usize }),
    ] + moved(rest, k));
}

/// A run of identifier characters ends at or before a closing parenthesis
/// that stands behind its start.
proof fn lemma_ident_run_stops(s: Seq<char>, p: nat, stop: nat)
    requires
        p <= stop < s.len(),
        s[stop as int] == ')',
    ensures
        p + ident_run(s, p) <= stop,
    decreases stop - p,
{
    if p < stop && ident_continue(s[p as int]) {
        lemma_ident_run_stops(s, p + 1, stop);
    }
}

/// A run of digits ends at or before a closing parenthesis that stands
/// behind its start.
proof fn lemma_digit_run_stops(s: Seq<char>, p: nat, stop: nat)
    requires
        p <= stop < s.len(),
        s[stop as int] == ')',
    ensures
        p + digit_run(s, p) <= stop,
    decreases stop - p,
{
    if p < stop && is_digit(s[p as int]) {
        lemma_digit_run_stops(s, p + 1, stop);
    }
}

/// A run of identifier characters in front of a closing parenthesis is the
/// same in a part of the text that reaches up to the parenthesis or
/// further.
proof fn lemma_ident_run_move(s: Seq<char>, a: nat, b: nat, p: nat, stop: nat)
    requires
        a <= p <= stop <= b <= s.len(),
        stop < s.len(),
        s[stop as int] == ')',
    ensures
        ident_run(s.subrange(a as int, b as int), (p - a) as nat) == ident_run(s, p),
        p + ident_run(s, p) <= stop,
    decreases left(s.len(), p),
{
    let sub = s.subrange(a as int, b as int);
    lemma_ident_run_stops(s, p, stop);
    if p < s.len() && ident_continue(s[p as int]) {
        assert(p < stop);
        assert(sub[p - a] == s[p as int]);
        lemma_ident_run_move(s, a, b, p + 1, stop);
    } else if p < b {
        assert(sub[p - a] == s[p as int]);
    }
}

/// A run of digits in front of a closing parenthesis is the same in a part
/// of the text that reaches up to the parenthesis or further.
proof fn lemma_digit_run_move(s: Seq<char>, a: nat, b: nat, p: nat, stop: nat)
    requires
        a <= p <= stop <= b <= s.len(),
        stop < s.len(),
        s[stop as int] == ')',
    ensures
        digit_run(s.subrange(a as int, b as int), (p - a) as nat) == digit_run(s, p),
        p + digit_run(s, p) <= stop,
    decreases left(s.len(), p),
{
    let sub = s.subrange(a as int, b as int);
    lemma_digit_run_stops(s, p, stop);
    if p < s.len() && is_digit(s[p as int]) {
        assert(p < stop);
        assert(sub[p - a] == s[p as int]);
        lemma_digit_run_move(s, a, b, p + 1, stop);
    } else if p < b {
        assert(sub[p - a] == s[p as int]);
    }
}

/// Whether a two-character mark stands at `pos` is the same in a part of
/// the text that reaches up to a closing parenthesis behind `pos`.
proof fn lemma_prefix_move(s: Seq<char>, a: nat, b: nat, pos: nat, stop: nat, lit: Seq<char>)
    requires
        a <= pos < stop <= b <= s.len(),
        stop < s.len(),
        s[stop as int] == ')',
        lit.len() == 2,
        lit[1] != ')',
    ensures
        has_prefix_at(s.subrange(a as int, b as int), pos - a, lit) == has_prefix_at(
            s,
            pos as int,
            lit,
        ),
        has_prefix_at(s, pos as int, lit) ==> pos + 2 <= stop,
{
    let sub = s.subrange(a as int, b as int);
    if has_prefix_at(s, pos as int, lit) {
        assert(s.subrange(pos as int, (pos + 2) as int)[1] == lit[1]);
    }
    if pos + 2 <= b {
        assert(sub.subrange(pos - a, pos - a + 2) =~= s.subrange(pos as int, (pos + 2) as int));
    }
}

/// The mark at `pos` is the same in a part of the text that reaches up to
/// a closing parenthesis behind `pos`, and ends in front of it.
proof fn lemma_mark_move(s: Seq<char>, a: nat, b: nat, pos: nat, stop: nat)
    requires
        a <= pos < stop <= b <= s.len(),
        stop < s.len(),
        s[stop as int] == ')',
    ensures
        mark_at(s.subrange(a as int, b as int), (pos - a) as nat) == mark_at(s, pos),
        mark_at(s, pos) matches Some((_, more)) ==> pos + 1 + more <= stop,
{
    let sub = s.subrange(a as int, b as int);
    assert(sub[pos - a] == s[pos as int]);
    reveal_strlit("->");
    reveal_strlit("==");
    reveal_strlit("<=");
    reveal_strlit(">=");
    reveal_strlit("&&");
    reveal_strlit("||");
    assert("->"@.len() == 2 && "->"@[1] == '>');
    assert("=="@.len() == 2 && "=="@[1] == '=');
    assert("<="@.len() == 2 && "<="@[1] == '=');
    assert(">="@.len() == 2 && ">="@[1] == '=');
    assert("&&"@.len() == 2 && "&&"@[1] == '&');
    assert("||"@.len() == 2 && "||"@[1] == '|');
    lemma_prefix_move(s, a, b, pos, stop, "->"@);
    lemma_prefix_move(s, a, b, pos, stop, "=="@);
    lemma_prefix_move(s, a, b, pos, stop, "<="@);
    lemma_prefix_move(s, a, b, pos, stop, ">="@);
    lemma_prefix_move(s, a, b, pos, stop, "&&"@);
    lemma_prefix_move(s, a, b, pos, stop, "||"@);
}

/// The number at `pos` is the same in a part of the text that reaches up
/// to a closing parenthesis behind `pos`, and ends in front of it.
proof fn lemma_number_move(s: Seq<char>, a: nat, b: nat, pos: nat, stop: nat)
    requires
        a <= pos < stop <= b <= s.len(),
        stop < s.len(),
        s[stop as int] == ')',
    ensures
        number_at(s.subrange(a as int, b as int), (pos - a) as nat) == number_at(s, pos),
        number_at(s, pos) matches Lexeme::Token(_, more) ==> pos + 1 + more <= stop,
{
    let sub = s.subrange(a as int, b as int);
    assert(sub[pos - a] == s[pos as int]);
    let negative = s[pos as int] == '-';
    let d: nat = if negative {
        pos + 1
    } else {
        pos
    };
    if d < b {
        assert(sub[d - a] == s[d as int]);
    }
    if d < s.len() && is_digit(s[d as int]) {
        assert(d < stop);
        let run: nat = if s[d as int] == '0' {
            0
        } else {
            digit_run(s, d + 1)
        };
        if s[d as int] != '0' {
            lemma_digit_run_move(s, a, b, d + 1, stop);
        }
        assert(sub.subrange(d - a, d - a + 1 + run) =~= s.subrange(d as int, (d + 1 + run) as int));
    }
}

/// The token at `pos` is the same in a part of the text that reaches up to
/// a closing parenthesis behind `pos`, and ends in front of it.
proof fn lemma_simple_move(s: Seq<char>, a: nat, b: nat, pos: nat, stop: nat)
    requires
        a <= pos < stop <= b <= s.len(),
        stop < s.len(),
        s[stop as int] == ')',
    ensures
        simple_token(s.subrange(a as int, b as int), (pos - a) as nat) == simple_token(s, pos),
        simple_token(s, pos) matches Lexeme::Token(_, more) ==> pos + 1 + more <= stop,
{
    reveal(simple_token);
    let sub = s.subrange(a as int, b as int);
    let c = s[pos as int];
    assert(sub[pos - a] == c);
    if pos + 1 < b {
        assert(sub[pos + 1 - a] == s[(pos + 1) as int]);
    }
    if ident_start(c) {
        let more = ident_run(s, pos + 1);
        lemma_ident_run_move(s, a, b, pos + 1, stop);
        assert(sub.subrange(pos - a, pos - a + 1 + more) =~= s.subrange(pos as int, (pos + 1 + more) as int));
    } else if c == '\'' && pos + 1 < s.len() && ident_start(s[(pos + 1) as int]) {
        let more = 1 + ident_run(s, pos + 2);
        lemma_ident_run_move(s, a, b, pos + 2, stop);
        assert(sub.subrange(pos - a, pos - a + 1 + more) =~= s.subrange(pos as int, (pos + 1 + more) as int));
    } else {
        lemma_mark_move(s, a, b, pos, stop);
        if mark_at(s, pos) is None {
            lemma_number_move(s, a, b, pos, stop);
        }
    }
}

/// Whether the tokens of the region from `pos` on, which is closed at or
/// before `b`, are the same in the part of the text from `a` up to `b`,
/// moved by `a`. There they are read as a region where the part holds the
/// closing parenthesis, and as a whole text where the part ends before it.
pub open spec fn moves(s: Seq<char>, a: nat, b: nat, pos: nat) -> bool {
    lex_items(
        s.subrange(a as int, b as int),
        (pos - a) as nat,
        pos + lex_items(s, pos, true)->Ok_0.1 < b,
    ) == Ok::<(TokenSeq, nat), LexError>(
        (moved(lex_items(s, pos, true)->Ok_0.0, a), lex_items(s, pos, true)->Ok_0.1),
    )
}

/// Whether a region from `pos` on is closed at or before `b`.
pub open spec fn closed_by(s: Seq<char>, a: nat, b: nat, pos: nat) -> bool {
    &&& a <= pos <= b <= s.len() <= usize::MAX
    &&& lex_items(s, pos, true) is Ok
    &&& pos + lex_items(s, pos, true)->Ok_0.1 <= b
}

proof fn lemma_move_close(s: Seq<char>, a: nat, b: nat, pos: nat)
    requires
        closed_by(s, a, b, pos),
        s[pos as int] == ')',
    ensures
        moves(s, a, b, pos),
{
    let sub = s.subrange(a as int, b as int);
    if pos < b {
        assert(sub[pos - a] == s[pos as int]);
    }
    assert(moved(Seq::empty(), a) =~= Seq::empty());
}

proof fn lemma_move_unit(s: Seq<char>, a: nat, b: nat, pos: nat)
    requires
        closed_by(s, a, b, pos),
        s[pos as int] == '(',
        pos + 1 < s.len() && s[(pos + 1) as int] == ')',
        closed_by(s, a, b, pos + 2) ==> moves(s, a, b, pos + 2),
    ensures
        moves(s, a, b, pos),
{
    let sub = s.subrange(a as int, b as int);
    let rest = lex_items(s, pos + 2, true);
    assert(rest is Ok);
    assert(sub[pos - a] == s[pos as int]);
    assert(sub[pos + 1 - a] == s[(pos + 1) as int]);
    lemma_moved_first(TokenModel::UnitVal, span_of(pos, pos + 2), rest->Ok_0.0, a);
}

proof fn lemma_move_group(s: Seq<char>, a: nat, b: nat, pos: nat)
    requires
        closed_by(s, a, b, pos),
        s[pos as int] == '(',
        !(pos + 1 < s.len() && s[(pos + 1) as int] == ')'),
        closed_by(s, a, b, pos + 1) ==> moves(s, a, b, pos + 1),
        lex_items(s, pos + 1, true) is Ok ==> (closed_by(
            s,
            a,
            b,
            pos + lex_items(s, pos + 1, true)->Ok_0.1 + 2,
        ) ==> moves(s, a, b, pos + lex_items(s, pos + 1, true)->Ok_0.1 + 2)),
    ensures
        moves(s, a, b, pos),
{
    let sub = s.subrange(a as int, b as int);
    let inner = lex_items(s, pos + 1, true);
    assert(inner is Ok);
    let k = inner->Ok_0.1;
    let rest = lex_items(s, pos + k + 2, true);
    assert(rest is Ok);
    lemma_closes(s, pos + 1);
    assert(sub[pos - a] == s[pos as int]);
    if pos + 1 < b {
        assert(sub[pos + 1 - a] == s[(pos + 1) as int]);
    }
    lemma_moved_first(
        TokenModel::Parens(inner->Ok_0.0),
        span_of(pos, pos + k + 2),
        rest->Ok_0.0,
        a,
    );
}

proof fn lemma_move_space(s: Seq<char>, a: nat, b: nat, pos: nat)
    requires
        closed_by(s, a, b, pos),
        s[pos as int] != '(',
        s[pos as int] != ')',
        white_space(s[pos as int]),
        closed_by(s, a, b, pos + 1) ==> moves(s, a, b, pos + 1),
    ensures
        moves(s, a, b, pos),
{
    let sub = s.subrange(a as int, b as int);
    let rest = lex_items(s, pos + 1, true);
    assert(rest is Ok);
    assert(sub[pos - a] == s[pos as int]);
    assert(Seq::<(TokenModel, Span)>::empty() + rest->Ok_0.0 =~= rest->Ok_0.0);
    assert(Seq::<(TokenModel, Span)>::empty() + moved(rest->Ok_0.0, a) =~= moved(rest->Ok_0.0, a));
}

proof fn lemma_move_token(s: Seq<char>, a: nat, b: nat, pos: nat)
    requires
        closed_by(s, a, b, pos),
        s[pos as int] != '(',
        s[pos as int] != ')',
        !white_space(s[pos as int]),
        simple_token(s, pos) matches Lexeme::Token(_, more) ==> (closed_by(
            s,
            a,
            b,
            pos + 1 + more,
        ) ==> moves(s, a, b, pos + 1 + more)),
    ensures
        moves(s, a, b, pos),
{
    let sub = s.subrange(a as int, b as int);
    let n = lex_items(s, pos, true)->Ok_0.1;
    lemma_closes(s, pos);
    assert(sub[pos - a] == s[pos as int]);
    match simple_token(s, pos) {
        Lexeme::Token(t, more) => {
            let rest = lex_items(s, pos + 1 + more, true);
            assert(rest is Ok);
            lemma_simple_move(s, a, b, pos, pos + n);
            lemma_moved_first(t, span_of(pos, pos + 1 + more), rest->Ok_0.0, a);
            assert(!(t is Parens)) by {
                reveal(simple_token);
            }
        },
        _ => {},
    }
}

/// The tokens of a region that is closed at or before `b` are the same in
/// the part of the text from `a` up to `b`, moved by `a`.
pub proof fn lemma_items_move(s: Seq<char>, a: nat, b: nat, pos: nat)
    requires
        closed_by(s, a, b, pos),
    ensures
        moves(s, a, b, pos),
    decreases left(s.len(), pos),
{
    if s[pos as int] == ')' {
        lemma_move_close(s, a, b, pos);
    } else if s[pos as int] == '(' {
        if pos + 1 < s.len() && s[(pos + 1) as int] == ')' {
            if closed_by(s, a, b, pos + 2) {
                lemma_items_move(s, a, b, pos + 2);
            }
            lemma_move_unit(s, a, b, pos);
        } else {
            if closed_by(s, a, b, pos + 1) {
                lemma_items_move(s, a, b, pos + 1);
            }
            if lex_items(s, pos + 1, true) is Ok {
                let k = lex_items(s, pos + 1, true)->Ok_0.1;
                if closed_by(s, a, b, pos + k + 2) {
                    lemma_items_move(s, a, b, pos + k + 2);
                }
            }
            lemma_move_group(s, a, b, pos);
        }
    } else if white_space(s[pos as int]) {
        if closed_by(s, a, b, pos + 1) {
            lemma_items_move(s, a, b, pos + 1);
        }
        lemma_move_space(s, a, b, pos);
    } else {
        match simple_token(s, pos) {
            Lexeme::Token(t, more) => {
                if closed_by(s, a, b, pos + 1 + more) {
                    lemma_items_move(s, a, b, pos + 1 + more);
                }
            },
            _ => {},
        }
        lemma_move_token(s, a, b, pos);
    }
}

/// A parenthesised region is one `Parens` token that spans both
/// parentheses, and its payload is what the interior gives when it is lexed
/// as a text of its own, with the spans moved to the place of the interior.
pub proof fn lemma_group_is_interior(s: Seq<char>, pos: nat, nested: bool)
    requires
        s.len() <= usize::MAX,
        pos < s.len(),
        s[pos as int] == '(',
        !(pos + 1 < s.len() && s[(pos + 1) as int] == ')'),
        lex_items(s, pos + 1, true) is Ok,
    ensures
        ({
            let (inner, n) = lex_items(s, pos + 1, true)->Ok_0;
            &&& pos + 1 + n < s.len()
            &&& s[(pos + 1 + n) as int] == ')'
            &&& lex_items(s, pos, nested) == after(
                seq![(TokenModel::Parens(inner), span_of(pos, pos + n + 2))],
                n + 2,
                lex_items(s, pos + n + 2, nested),
            )
            &&& lex(s.subrange((pos + 1) as int, (pos + 1 + n) as int)) == Ok::<TokenSeq, LexError>(
                moved(inner, pos + 1),
            )
        }),
{
    let (inner, n) = lex_items(s, pos + 1, true)->Ok_0;
    lemma_closes(s, pos + 1);
    lemma_items_move(s, pos + 1, pos + 1 + n, pos + 1);
    assert(moves(s, pos + 1, pos + 1 + n, pos + 1));
}

/// Whether the part of the text from `a` up to the closing parenthesis at
/// `b`, read as a text of its own, lexes from `pos` on: as a whole text,
/// or as a region where `nested` holds.
pub open spec fn part_lexes(s: Seq<char>, a: nat, b: nat, pos: nat, nested: bool) -> bool {
    &&& a <= pos <= b < s.len() <= usize::MAX
    &&& s[b as int] == ')'
    &&& lex_items(s.subrange(a as int, b as int), (pos - a) as nat, nested) is Ok
}

/// Whether the region from `pos` on lexes in the text as in its part from
/// `a` up to `b`, with as many characters taken: all up to `b` where the
/// part is read as a whole text, fewer where it is read as a region.
pub open spec fn closes_as_part(s: Seq<char>, a: nat, b: nat, pos: nat, nested: bool) -> bool {
    let n = lex_items(s.subrange(a as int, b as int), (pos - a) as nat, nested)->Ok_0.1;
    &&& lex_items(s, pos, true) is Ok
    &&& lex_items(s, pos, true)->Ok_0.1 == n
    &&& if nested {
        pos + n < b
    } else {
        pos + n == b
    }
}

proof fn lemma_part_group(s: Seq<char>, a: nat, b: nat, pos: nat, nested: bool)
    requires
        part_lexes(s, a, b, pos, nested),
        pos < b,
        s[pos as int] == '(',
        part_lexes(s, a, b, pos + 2, nested) ==> closes_as_part(s, a, b, pos + 2, nested),
        part_lexes(s, a, b, pos + 1, true) ==> closes_as_part(s, a, b, pos + 1, true),
        forall|k: nat|
            part_lexes(s, a, b, pos + k + 2, nested) ==> #[trigger] closes_as_part(
                s,
                a,
                b,
                pos + k + 2,
                nested,
            ),
    ensures
        closes_as_part(s, a, b, pos, nested),
{
    let sub = s.subrange(a as int, b as int);
    assert(sub[pos - a] == s[pos as int]);
    if pos + 1 < b {
        assert(sub[pos + 1 - a] == s[(pos + 1) as int]);
    }
    if pos + 1 < b && s[(pos + 1) as int] == ')' {
        assert(part_lexes(s, a, b, pos + 2, nested));
    } else {
        let inner = lex_items(sub, (pos + 1 - a) as nat, true);
        assert(inner is Ok);
        assert(pos + 1 < b);
        assert(part_lexes(s, a, b, pos + 1, true));
        let k = inner->Ok_0.1;
        assert(part_lexes(s, a, b, pos + k + 2, nested));
        assert(closes_as_part(s, a, b, pos + k + 2, nested));
    }
}

proof fn lemma_part_token(s: Seq<char>, a: nat, b: nat, pos: nat, nested: bool)
    requires
        part_lexes(s, a, b, pos, nested),
        pos < b,
        s[pos as int] != '(',
        s[pos as int] != ')',
        part_lexes(s, a, b, pos + 1, nested) ==> closes_as_part(s, a, b, pos + 1, nested),
        forall|more: nat|
            part_lexes(s, a, b, pos + 1 + more, nested) ==> #[trigger] closes_as_part(
                s,
                a,
                b,
                pos + 1 + more,
                nested,
            ),
    ensures
        closes_as_part(s, a, b, pos, nested),
{
    let sub = s.subrange(a as int, b as int);
    assert(sub[pos - a] == s[pos as int]);
    if white_space(s[pos as int]) {
        assert(part_lexes(s, a, b, pos + 1, nested));
    } else {
        lemma_simple_move(s, a, b, pos, b);
        match simple_token(s, pos) {
            Lexeme::Token(t, more) => {
                assert(part_lexes(s, a, b, pos + 1 + more, nested));
                assert(closes_as_part(s, a, b, pos + 1 + more, nested));
            },
            _ => {},
        }
    }
}

/// A part of the text in front of a closing parenthesis that lexes as a
/// text of its own is a region of the text that the parenthesis closes.
pub proof fn lemma_part_closes(s: Seq<char>, a: nat, b: nat, pos: nat, nested: bool)
    requires
        part_lexes(s, a, b, pos, nested),
    ensures
        closes_as_part(s, a, b, pos, nested),
    decreases left(s.len(), pos),
{
    let sub = s.subrange(a as int, b as int);
    if pos == b {
    } else {
        assert(sub[pos - a] == s[pos as int]);
        if s[pos as int] == ')' {
        } else if s[pos as int] == '(' {
            if part_lexes(s, a, b, pos + 2, nested) {
                lemma_part_closes(s, a, b, pos + 2, nested);
            }
            if part_lexes(s, a, b, pos + 1, true) {
                lemma_part_closes(s, a, b, pos + 1, true);
            }
            assert forall|k: nat| part_lexes(s, a, b, pos + k + 2, nested) implies #[trigger] closes_as_part(
                s,
                a,
                b,
                pos + k + 2,
                nested,
            ) by {
                lemma_part_closes(s, a, b, pos + k + 2, nested);
            }
            lemma_part_group(s, a, b, pos, nested);
        } else {
            if part_lexes(s, a, b, pos + 1, nested) {
                lemma_part_closes(s, a, b, pos + 1, nested);
            }
            assert forall|more: nat| part_lexes(s, a, b, pos + 1 + more, nested) implies #[trigger] closes_as_part(
                s,
                a,
                b,
                pos + 1 + more,
                nested,
            ) by {
                lemma_part_closes(s, a, b, pos + 1 + more, nested);
            }
            lemma_part_token(s, a, b, pos, nested);
        }
    }
}

/// Where the text between a `(` and a later `)` is not empty and lexes as
/// a text of its own, the two parentheses enclose a region: one `Parens`
/// token that spans both, whose payload is what the interior lexes to,
/// with the spans at the place of the interior.
pub proof fn lemma_interior_is_group(s: Seq<char>, pos: nat, close: nat, nested: bool)
    requires
        s.len() <= usize::MAX,
        pos + 1 < close < s.len(),
        s[pos as int] == '(',
        s[close as int] == ')',
        lex(s.subrange((pos + 1) as int, close as int)) is Ok,
    ensures
        lex_items(s, pos + 1, true) is Ok,
        ({
            let (inner, n) = lex_items(s, pos + 1, true)->Ok_0;
            &&& pos + 1 + n == close
            &&& lex(s.subrange((pos + 1) as int, close as int)) == Ok::<TokenSeq, LexError>(
                moved(inner, pos + 1),
            )
            &&& lex_items(s, pos, nested) == after(
                seq![(TokenModel::Parens(inner), span_of(pos, close + 1))],
                n + 2,
                lex_items(s, close + 1, nested),
            )
        }),
{
    let sub = s.subrange((pos + 1) as int, close as int);
    assert(sub[0] == s[(pos + 1) as int]);
    assert(part_lexes(s, pos + 1, close, pos + 1, false));
    lemma_part_closes(s, pos + 1, close, pos + 1, false);
    lemma_group_is_interior(s, pos, nested);
}

} // verus!
