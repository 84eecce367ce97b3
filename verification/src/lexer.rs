//! The lexer: source text to a sequence of tokens with spans, in which every
//! parenthesised region is folded into one `Parens` token.

use vstd::prelude::*;
use crate::language::{Span, Token, TokenModel, TokenSeq, tokens_view, lemma_token_view};
use crate::text::{
    white_space, ident_start, ident_continue, upper_case, is_digit, digits_value, has_prefix_at,
    is_white_space, is_ident_start, is_ident_continue, is_upper_case, char_is_digit, chars_of,
    slice_is, starts_with_at, string_of, left,
};

pub mod groups;
pub mod tokens;

verus! {

#[derive(Clone, Copy, Debug, PartialEq, Eq, Structural)]
pub enum LexErrorKind {
    /// A character that starts no token, or a `)` that closes nothing.
    UnexpectedChar,
    /// The text ends inside a parenthesised region.
    UnclosedParen,
    /// An integer literal above the largest 32-bit integer.
    IntOutOfRange,
}

/// Why lexing stopped, and the character offset at which it did.
#[derive(Clone, Copy, Debug, PartialEq, Eq, Structural)]
pub struct LexError {
    pub kind: LexErrorKind,
    pub position: usize,
}

/// How many characters from `pos` on continue an identifier.
pub open spec fn ident_run(s: Seq<char>, pos: nat) -> nat
    decreases s.len() - pos,
{
    if pos < s.len() && ident_continue(s[pos as int]) {
        1 + ident_run(s, pos + 1)
    } else {
        0
    }
}

/// How many characters from `pos` on are decimal digits.
pub open spec fn digit_run(s: Seq<char>, pos: nat) -> nat
    decreases s.len() - pos,
{
    if pos < s.len() && is_digit(s[pos as int]) {
        1 + digit_run(s, pos + 1)
    } else {
        0
    }
}

/// The token that an identifier-shaped word stands for: a keyword, a
/// constructor name where it starts with an uppercase letter, else an
/// identifier.
pub open spec fn word_token(w: Seq<char>) -> TokenModel {
    if w == "let"@ {
        TokenModel::Let
    } else if w == "int"@ {
        TokenModel::Int
    } else if w == "bool"@ {
        TokenModel::Bool
    } else if w == "unit"@ {
        TokenModel::Unit
    } else if w == "in"@ {
        TokenModel::In
    } else if w == "fun"@ {
        TokenModel::Fun
    } else if w == "if"@ {
        TokenModel::If
    } else if w == "eval"@ {
        TokenModel::Eval
    } else if w == "then"@ {
        TokenModel::Then
    } else if w == "function"@ {
        TokenModel::Function
    } else if w == "else"@ {
        TokenModel::Else
    } else if w == "true"@ {
        TokenModel::BoolVal(true)
    } else if w == "false"@ {
        TokenModel::BoolVal(false)
    } else if w == "as"@ {
        TokenModel::As
    } else if w == "not"@ {
        TokenModel::Not
    } else if w == "match"@ {
        TokenModel::Match
    } else if w == "with"@ {
        TokenModel::With
    } else if w == "rec"@ {
        TokenModel::Rec
    } else if w == "_"@ {
        TokenModel::Wildcard
    } else if w == "type"@ {
        TokenModel::Type
    } else if w == "of"@ {
        TokenModel::Of
    } else if w == "val"@ {
        TokenModel::Val
    } else if w.len() > 0 && upper_case(w[0]) {
        TokenModel::Cons(w)
    } else {
        TokenModel::Id(w)
    }
}

/// What stands at one position, parentheses aside.
pub enum Lexeme {
    /// A token, and how many characters it takes beyond its first.
    Token(TokenModel, nat),
    /// An integer literal that does not fit in 32 bits.
    Overflow,
    /// No token starts here.
    Nothing,
}

/// The operator or punctuation mark at `pos`, with the number of characters
/// it takes beyond its first. Two-character marks win over their one-character
/// prefixes.
pub open spec fn mark_at(s: Seq<char>, pos: nat) -> Option<(TokenModel, nat)>
    recommends
        pos < s.len(),
{
    let c = s[pos as int];
    if has_prefix_at(s, pos as int, "->"@) {
        Some((TokenModel::Arrow, 1))
    } else if has_prefix_at(s, pos as int, "=="@) {
        Some((TokenModel::EqEq, 1))
    } else if has_prefix_at(s, pos as int, "<="@) {
        Some((TokenModel::Leq, 1))
    } else if has_prefix_at(s, pos as int, ">="@) {
        Some((TokenModel::Geq, 1))
    } else if has_prefix_at(s, pos as int, "&&"@) {
        Some((TokenModel::And, 1))
    } else if has_prefix_at(s, pos as int, "||"@) {
        Some((TokenModel::Or, 1))
    } else if c == '@' {
        Some((TokenModel::Deco, 0))
    } else if c == '|' {
        Some((TokenModel::Vbar, 0))
    } else if c == '<' {
        Some((TokenModel::Lq, 0))
    } else if c == '>' {
        Some((TokenModel::Gq, 0))
    } else if c == ':' {
        Some((TokenModel::Colon, 0))
    } else if c == '=' {
        Some((TokenModel::Eq, 0))
    } else if c == '+' {
        Some((TokenModel::Plus, 0))
    } else if c == '*' {
        Some((TokenModel::Times, 0))
    } else if c == '.' {
        Some((TokenModel::Dot, 0))
    } else if c == ',' {
        Some((TokenModel::Comma, 0))
    } else if c == '/' {
        Some((TokenModel::Slash, 0))
    } else {
        None
    }
}

/// The integer literal at `pos`: an optional minus sign directly before
/// digits, which are a lone `0` or start with a non-zero digit.
pub open spec fn number_at(s: Seq<char>, pos: nat) -> Lexeme
    recommends
        pos < s.len(),
{
    let negative = s[pos as int] == '-';
    let d: nat = if negative {
        pos + 1
    } else {
        pos
    };
    if d < s.len() && is_digit(s[d as int]) {
        let run: nat = if s[d as int] == '0' {
            0
        } else {
            digit_run(s, d + 1)
        };
        let value = digits_value(s.subrange(d as int, (d + 1 + run) as int));
        if value > i32::MAX {
            Lexeme::Overflow
        } else {
            Lexeme::Token(
                TokenModel::IntVal(
                    if negative {
                        (-(value as int)) as i32
                    } else {
                        value as i32
                    },
                ),
                (d + run - pos) as nat,
            )
        }
    } else {
        Lexeme::Nothing
    }
}

/// The token at `pos`, parentheses aside. Words are tried first, then type
/// variables, marks, numbers, and the lone minus sign.
#[verifier::opaque]
pub open spec fn simple_token(s: Seq<char>, pos: nat) -> Lexeme
    recommends
        pos < s.len(),
{
    let c = s[pos as int];
    if ident_start(c) {
        let more = ident_run(s, pos + 1);
        Lexeme::Token(word_token(s.subrange(pos as int, (pos + 1 + more) as int)), more)
    } else if c == '\'' && pos + 1 < s.len() && ident_start(s[(pos + 1) as int]) {
        let more = 1 + ident_run(s, pos + 2);
        Lexeme::Token(TokenModel::Var(s.subrange(pos as int, (pos + 1 + more) as int)), more)
    } else {
        match mark_at(s, pos) {
            Some((t, more)) => Lexeme::Token(t, more),
            None => match number_at(s, pos) {
                Lexeme::Nothing => if c == '-' {
                    Lexeme::Token(TokenModel::Dash, 0)
                } else {
                    Lexeme::Nothing
                },
                found => found,
            },
        }
    }
}

/// The span from offset `start` up to offset `end`.
pub open spec fn span_of(start: nat, end: nat) -> Span {
    Span { start: start as usize, end: end as usize }
}

/// A lexing result behind `prefix`, which took `taken` characters.
pub open spec fn after(
    prefix: TokenSeq,
    taken: nat,
    rest: Result<(TokenSeq, nat), LexError>,
) -> Result<(TokenSeq, nat), LexError> {
    match rest {
        Ok((tokens, n)) => Ok((prefix + tokens, taken + n)),
        Err(e) => Err(e),
    }
}

/// The tokens from `pos` on, with the number of characters taken.
///
/// At the top level (`nested` false) the tokens run to the end of the text,
/// and a `)` is an error. Inside parentheses they run up to the closing `)`,
/// which is not counted, and the end of the text is an error. `()` is the
/// unit token; any other `(` opens a region that becomes one `Parens`
/// token, spanning both parentheses. Whitespace between tokens is skipped.
pub open spec fn lex_items(s: Seq<char>, pos: nat, nested: bool) -> Result<(TokenSeq, nat), LexError>
    decreases left(s.len(), pos),
{
    if pos >= s.len() {
        if nested {
            Err(LexError { kind: LexErrorKind::UnclosedParen, position: s.len() as usize })
        } else {
            Ok((Seq::empty(), 0))
        }
    } else if s[pos as int] == ')' {
        if nested {
            Ok((Seq::empty(), 0))
        } else {
            Err(LexError { kind: LexErrorKind::UnexpectedChar, position: pos as usize })
        }
    } else if s[pos as int] == '(' {
        if pos + 1 < s.len() && s[(pos + 1) as int] == ')' {
            after(
                seq![(TokenModel::UnitVal, span_of(pos, pos + 2))],
                2,
                lex_items(s, pos + 2, nested),
            )
        } else {
            match lex_items(s, pos + 1, true) {
                Ok((inner, n)) => after(
                    seq![(TokenModel::Parens(inner), span_of(pos, pos + n + 2))],
                    n + 2,
                    lex_items(s, pos + n + 2, nested),
                ),
                Err(e) => Err(e),
            }
        }
    } else if white_space(s[pos as int]) {
        after(Seq::empty(), 1, lex_items(s, pos + 1, nested))
    } else {
        match simple_token(s, pos) {
            Lexeme::Token(t, more) => after(
                seq![(t, span_of(pos, pos + 1 + more))],
                1 + more,
                lex_items(s, pos + 1 + more, nested),
            ),
            Lexeme::Overflow => Err(
                LexError { kind: LexErrorKind::IntOutOfRange, position: pos as usize },
            ),
            Lexeme::Nothing => Err(
                LexError { kind: LexErrorKind::UnexpectedChar, position: pos as usize },
            ),
        }
    }
}

/// The tokens of a whole source text.
pub open spec fn lex(s: Seq<char>) -> Result<TokenSeq, LexError> {
    match lex_items(s, 0, false) {
        Ok((tokens, _)) => Ok(tokens),
        Err(e) => Err(e),
    }
}

/// What `scan_simple` found at one position.
enum Scanned {
    Token(Token, usize),
    Overflow,
    Nothing,
}

fn scan_ident(chars: &Vec<char>, pos: usize) -> (end: usize)
    requires
        pos <= chars@.len(),
    ensures
        end == pos + ident_run(chars@, pos as nat),
        end <= chars@.len(),
    decreases chars@.len() - pos,
{
    if pos < chars.len() && is_ident_continue(chars[pos]) {
        scan_ident(chars, pos + 1)
    } else {
        pos
    }
}

fn scan_digits(chars: &Vec<char>, pos: usize) -> (end: usize)
    requires
        pos <= chars@.len(),
    ensures
        end == pos + digit_run(chars@, pos as nat),
        end <= chars@.len(),
    decreases chars@.len() - pos,
{
    if pos < chars.len() && char_is_digit(chars[pos]) {
        scan_digits(chars, pos + 1)
    } else {
        pos
    }
}

fn scan_word(chars: &Vec<char>, start: usize, end: usize) -> (t: Token)
    requires
        start < end <= chars@.len(),
    ensures
        t@ == word_token(chars@.subrange(start as int, end as int)),
{
    if slice_is(chars, start, end, "let") {
        Token::Let
    } else if slice_is(chars, start, end, "int") {
        Token::Int
    } else if slice_is(chars, start, end, "bool") {
        Token::Bool
    } else if slice_is(chars, start, end, "unit") {
        Token::Unit
    } else if slice_is(chars, start, end, "in") {
        Token::In
    } else if slice_is(chars, start, end, "fun") {
        Token::Fun
    } else if slice_is(chars, start, end, "if") {
        Token::If
    } else if slice_is(chars, start, end, "eval") {
        Token::Eval
    } else if slice_is(chars, start, end, "then") {
        Token::Then
    } else if slice_is(chars, start, end, "function") {
        Token::Function
    } else if slice_is(chars, start, end, "else") {
        Token::Else
    } else if slice_is(chars, start, end, "true") {
        Token::BoolVal(true)
    } else if slice_is(chars, start, end, "false") {
        Token::BoolVal(false)
    } else if slice_is(chars, start, end, "as") {
        Token::As
    } else if slice_is(chars, start, end, "not") {
        Token::Not
    } else if slice_is(chars, start, end, "match") {
        Token::Match
    } else if slice_is(chars, start, end, "with") {
        Token::With
    } else if slice_is(chars, start, end, "rec") {
        Token::Rec
    } else if slice_is(chars, start, end, "_") {
        Token::Wildcard
    } else if slice_is(chars, start, end, "type") {
        Token::Type
    } else if slice_is(chars, start, end, "of") {
        Token::Of
    } else if slice_is(chars, start, end, "val") {
        Token::Val
    } else if is_upper_case(chars[start]) {
        Token::Cons(string_of(chars, start, end))
    } else {
        Token::Id(string_of(chars, start, end))
    }
}

fn scan_mark(chars: &Vec<char>, pos: usize) -> (r: Option<(Token, usize)>)
    requires
        pos < chars@.len(),
    ensures
        match (r, mark_at(chars@, pos as nat)) {
            (Some((t, end)), Some((m, more))) => t@ == m && end == pos + 1 + more
                && end <= chars@.len(),
            (None, None) => true,
            _ => false,
        },
{
    let c = chars[pos];
    let len = chars.len();
    if starts_with_at(chars, pos, "->") {
        proof {
            reveal_strlit("->");
        }
        Some((Token::Arrow, pos + 2))
    } else if starts_with_at(chars, pos, "==") {
        proof {
            reveal_strlit("==");
        }
        Some((Token::EqEq, pos + 2))
    } else if starts_with_at(chars, pos, "<=") {
        proof {
            reveal_strlit("<=");
        }
        Some((Token::Leq, pos + 2))
    } else if starts_with_at(chars, pos, ">=") {
        proof {
            reveal_strlit(">=");
        }
        Some((Token::Geq, pos + 2))
    } else if starts_with_at(chars, pos, "&&") {
        proof {
            reveal_strlit("&&");
        }
        Some((Token::And, pos + 2))
    } else if starts_with_at(chars, pos, "||") {
        proof {
            reveal_strlit("||");
        }
        Some((Token::Or, pos + 2))
    } else if c == '@' {
        Some((Token::Deco, pos + 1))
    } else if c == '|' {
        Some((Token::Vbar, pos + 1))
    } else if c == '<' {
        Some((Token::Lq, pos + 1))
    } else if c == '>' {
        Some((Token::Gq, pos + 1))
    } else if c == ':' {
        Some((Token::Colon, pos + 1))
    } else if c == '=' {
        Some((Token::Eq, pos + 1))
    } else if c == '+' {
        Some((Token::Plus, pos + 1))
    } else if c == '*' {
        Some((Token::Times, pos + 1))
    } else if c == '.' {
        Some((Token::Dot, pos + 1))
    } else if c == ',' {
        Some((Token::Comma, pos + 1))
    } else if c == '/' {
        Some((Token::Slash, pos + 1))
    } else {
        None
    }
}

/// A number is at least the number its leading digits denote.
pub proof fn lemma_digits_value_push(s: Seq<char>, c: char)
    ensures
        digits_value(s.push(c)) == digits_value(s) * 10 + crate::text::digit_value(c),
{
    assert(s.push(c).drop_last() =~= s);
}

fn digit_of(c: char) -> (d: u64)
    requires
        is_digit(c),
    ensures
        d == crate::text::digit_value(c),
{
    let code: u32 = c as u32;
    (code - 48) as u64
}

/// The value of the digits from `start` up to `end`, or `None` where it is
/// above the largest 32-bit integer.
fn scan_value(chars: &Vec<char>, start: usize, end: usize) -> (r: Option<i32>)
    requires
        start <= end <= chars@.len(),
        forall|i: int| start <= i < end ==> is_digit(#[trigger] chars@[i]),
    ensures
        match r {
            Some(v) => v == digits_value(chars@.subrange(start as int, end as int)),
            None => digits_value(chars@.subrange(start as int, end as int)) > i32::MAX,
        },
{
    let mut acc: u64 = 0;
    let mut i: usize = start;
    let mut over = false;
    assert(chars@.subrange(start as int, start as int) =~= Seq::empty());
    while i < end
        invariant
            start <= i <= end <= chars@.len(),
            forall|j: int| start <= j < end ==> is_digit(#[trigger] chars@[j]),
            !over ==> acc == digits_value(chars@.subrange(start as int, i as int)),
            !over ==> acc <= i32::MAX,
            over ==> digits_value(chars@.subrange(start as int, i as int)) > i32::MAX,
        decreases end - i,
    {
        let c = chars[i];
        assert(is_digit(chars@[i as int]));
        proof {
            lemma_digits_value_push(chars@.subrange(start as int, i as int), c);
            assert(chars@.subrange(start as int, i + 1) =~= chars@.subrange(
                start as int,
                i as int,
            ).push(c));
        }
        if !over {
            let d: u64 = digit_of(c);
            acc = acc * 10 + d;
            if acc > 2147483647 {
                over = true;
            }
        }
        i = i + 1;
    }
    if over {
        None
    } else {
        Some(acc as i32)
    }
}

/// Every character of a digit run is a digit.
pub proof fn lemma_digit_run(s: Seq<char>, pos: nat)
    ensures
        pos + digit_run(s, pos) <= s.len() || digit_run(s, pos) == 0,
        forall|i: int| pos <= i < pos + digit_run(s, pos) ==> is_digit(#[trigger] s[i]),
    decreases s.len() - pos,
{
    if pos < s.len() && is_digit(s[pos as int]) {
        lemma_digit_run(s, pos + 1);
    }
}

fn scan_number(chars: &Vec<char>, pos: usize) -> (r: Scanned)
    requires
        pos < chars@.len(),
    ensures
        scanned_is(r, number_at(chars@, pos as nat), pos, chars@.len()),
{
    let len = chars.len();
    let negative = chars[pos] == '-';
    let d: usize = if negative {
        pos + 1
    } else {
        pos
    };
    if d < chars.len() && char_is_digit(chars[d]) {
        let end: usize = if chars[d] == '0' {
            d + 1
        } else {
            scan_digits(chars, d + 1)
        };
        proof {
            lemma_digit_run(chars@, (d + 1) as nat);
        }
        match scan_value(chars, d, end) {
            Some(v) => Scanned::Token(
                Token::IntVal(
                    if negative {
                        -v
                    } else {
                        v
                    },
                ),
                end,
            ),
            None => Scanned::Overflow,
        }
    } else {
        Scanned::Nothing
    }
}

/// Whether what was scanned at `pos` is the lexeme `l`.
spec fn scanned_is(r: Scanned, l: Lexeme, pos: usize, len: nat) -> bool {
    match (r, l) {
        (Scanned::Token(t, end), Lexeme::Token(m, more)) => t@ == m && end == pos + 1 + more && end
            <= len,
        (Scanned::Overflow, Lexeme::Overflow) => true,
        (Scanned::Nothing, Lexeme::Nothing) => true,
        _ => false,
    }
}

fn scan_simple(chars: &Vec<char>, pos: usize) -> (r: Scanned)
    requires
        pos < chars@.len(),
    ensures
        scanned_is(r, simple_token(chars@, pos as nat), pos, chars@.len()),
{
    let c = chars[pos];
    let len = chars.len();
    reveal(simple_token);
    if is_ident_start(c) {
        let end = scan_ident(chars, pos + 1);
        Scanned::Token(scan_word(chars, pos, end), end)
    } else if c == '\'' && pos + 1 < chars.len() && is_ident_start(chars[pos + 1]) {
        let end = scan_ident(chars, pos + 2);
        Scanned::Token(Token::Var(string_of(chars, pos, end)), end)
    } else {
        match scan_mark(chars, pos) {
            Some((t, end)) => Scanned::Token(t, end),
            None => match scan_number(chars, pos) {
                Scanned::Nothing => if c == '-' {
                    Scanned::Token(Token::Dash, pos + 1)
                } else {
                    Scanned::Nothing
                },
                found => found,
            },
        }
    }
}

/// Whether a run of the lexer gave what the model gives from `start` on.
spec fn lexed_is(
    r: Result<(Vec<(Token, Span)>, usize), LexError>,
    m: Result<(TokenSeq, nat), LexError>,
    start: usize,
    len: nat,
) -> bool {
    match (r, m) {
        (Ok((tokens, end)), Ok((ms, n))) => tokens_view(tokens@) == ms && end == start + n && end
            <= len,
        (Err(a), Err(b)) => a == b,
        _ => false,
    }
}

proof fn lemma_after_space(s: Seq<char>, pos: nat, nested: bool, before: TokenSeq, taken: nat)
    requires
        pos < s.len(),
        s[pos as int] != ')',
        s[pos as int] != '(',
        white_space(s[pos as int]),
    ensures
        after(before, taken, lex_items(s, pos, nested)) == after(
            before,
            taken + 1,
            lex_items(s, pos + 1, nested),
        ),
{
    if let Ok((ms, n)) = lex_items(s, pos + 1, nested) {
        assert(before + (Seq::<(TokenModel, Span)>::empty() + ms) =~= before + ms);
    }
}

proof fn lemma_after_token(
    s: Seq<char>,
    pos: nat,
    nested: bool,
    before: TokenSeq,
    taken: nat,
    t: TokenModel,
    more: nat,
)
    requires
        pos < s.len(),
        !white_space(s[pos as int]),
        s[pos as int] != ')',
        s[pos as int] != '(',
        simple_token(s, pos) == Lexeme::Token(t, more),
    ensures
        after(before, taken, lex_items(s, pos, nested)) == after(
            before.push((t, span_of(pos, pos + 1 + more))),
            taken + 1 + more,
            lex_items(s, pos + 1 + more, nested),
        ),
{
    let one = seq![(t, span_of(pos, pos + 1 + more))];
    assert(before.push((t, span_of(pos, pos + 1 + more))) =~= before + one);
    if let Ok((ms, n)) = lex_items(s, pos + 1 + more, nested) {
        assert(before + (one + ms) =~= (before + one) + ms);
    }
}

proof fn lemma_after_group(
    s: Seq<char>,
    pos: nat,
    nested: bool,
    before: TokenSeq,
    taken: nat,
    inner: TokenSeq,
    n: nat,
)
    requires
        pos < s.len(),
        s[pos as int] == '(',
        !(pos + 1 < s.len() && s[(pos + 1) as int] == ')'),
        lex_items(s, pos + 1, true) == Ok::<(TokenSeq, nat), LexError>((inner, n)),
    ensures
        after(before, taken, lex_items(s, pos, nested)) == after(
            before.push((TokenModel::Parens(inner), span_of(pos, pos + n + 2))),
            taken + n + 2,
            lex_items(s, pos + n + 2, nested),
        ),
{
    let one = seq![(TokenModel::Parens(inner), span_of(pos, pos + n + 2))];
    assert(before.push((TokenModel::Parens(inner), span_of(pos, pos + n + 2))) =~= before + one);
    if let Ok((ms, k)) = lex_items(s, pos + n + 2, nested) {
        assert(before + (one + ms) =~= (before + one) + ms);
    }
}

proof fn lemma_after_unit(s: Seq<char>, pos: nat, nested: bool, before: TokenSeq, taken: nat)
    requires
        pos + 1 < s.len(),
        s[pos as int] == '(',
        s[(pos + 1) as int] == ')',
    ensures
        after(before, taken, lex_items(s, pos, nested)) == after(
            before.push((TokenModel::UnitVal, span_of(pos, pos + 2))),
            taken + 2,
            lex_items(s, pos + 2, nested),
        ),
{
    let one = seq![(TokenModel::UnitVal, span_of(pos, pos + 2))];
    assert(before.push((TokenModel::UnitVal, span_of(pos, pos + 2))) =~= before + one);
    if let Ok((ms, k)) = lex_items(s, pos + 2, nested) {
        assert(before + (one + ms) =~= (before + one) + ms);
    }
}

proof fn lemma_tokens_push(ts: Seq<(Token, Span)>, t: Token, span: Span)
    ensures
        tokens_view(ts.push((t, span))) == tokens_view(ts).push((t@, span)),
{
    assert(tokens_view(ts.push((t, span))) =~= tokens_view(ts).push((t@, span)));
}

fn lex_group(chars: &Vec<char>, start: usize, nested: bool) -> (r: Result<
    (Vec<(Token, Span)>, usize),
    LexError,
>)
    requires
        start <= chars@.len(),
    ensures
        lexed_is(r, lex_items(chars@, start as nat, nested), start, chars@.len()),
    decreases chars@.len() - start,
{
    let mut out: Vec<(Token, Span)> = Vec::new();
    let mut pos: usize = start;
    let ghost s = chars@;
    assert(tokens_view(out@) =~= Seq::empty());
    assert(after(Seq::empty(), 0, lex_items(s, start as nat, nested)) == lex_items(
        s,
        start as nat,
        nested,
    )) by {
        if let Ok((ms, n)) = lex_items(s, start as nat, nested) {
            assert(Seq::<(TokenModel, Span)>::empty() + ms =~= ms);
        }
    }
    loop
        invariant
            s == chars@,
            start <= pos <= s.len(),
            lex_items(s, start as nat, nested) == after(
                tokens_view(out@),
                (pos - start) as nat,
                lex_items(s, pos as nat, nested),
            ),
        decreases s.len() - pos,
    {
        let ghost before = tokens_view(out@);
        let ghost taken = (pos - start) as nat;
        if pos >= chars.len() {
            if nested {
                return Err(LexError { kind: LexErrorKind::UnclosedParen, position: chars.len() });
            }
            assert(before + Seq::<(TokenModel, Span)>::empty() =~= before);
            return Ok((out, pos));
        }
        let c = chars[pos];
        if c == ')' {
            if nested {
                assert(before + Seq::<(TokenModel, Span)>::empty() =~= before);
                return Ok((out, pos));
            }
            return Err(LexError { kind: LexErrorKind::UnexpectedChar, position: pos });
        }
        if c == '(' {
            if pos + 1 < chars.len() && chars[pos + 1] == ')' {
                let span = Span { start: pos, end: pos + 2 };
                proof {
                    lemma_after_unit(s, pos as nat, nested, before, taken);
                    lemma_tokens_push(out@, Token::UnitVal, span);
                }
                out.push((Token::UnitVal, span));
                pos = pos + 2;
                continue ;
            }
            match lex_group(chars, pos + 1, true) {
                Err(e) => {
                    return Err(e);
                },
                Ok((inner, close)) => {
                    let ghost inner_model = tokens_view(inner@);
                    let group = Token::Parens(inner);
                    proof {
                        lemma_closes(s, (pos + 1) as nat);
                    }
                    let span = Span { start: pos, end: close + 1 };
                    proof {
                        lemma_token_view(&group);
                        lemma_after_group(
                            s,
                            pos as nat,
                            nested,
                            before,
                            taken,
                            inner_model,
                            (close - pos - 1) as nat,
                        );
                        lemma_tokens_push(out@, group, span);
                    }
                    out.push((group, span));
                    pos = close + 1;
                    continue ;
                },
            }
        }
        if is_white_space(c) {
            proof {
                lemma_after_space(s, pos as nat, nested, before, taken);
            }
            pos = pos + 1;
            continue ;
        }
        match scan_simple(chars, pos) {
            Scanned::Token(t, end) => {
                proof {
                    lemma_after_token(
                        s,
                        pos as nat,
                        nested,
                        before,
                        taken,
                        t@,
                        (end - pos - 1) as nat,
                    );
                    lemma_tokens_push(out@, t, Span { start: pos, end });
                }
                out.push((t, Span { start: pos, end }));
                pos = end;
            },
            Scanned::Overflow => {
                return Err(LexError { kind: LexErrorKind::IntOutOfRange, position: pos });
            },
            Scanned::Nothing => {
                return Err(LexError { kind: LexErrorKind::UnexpectedChar, position: pos });
            },
        }
    }
}

/// A parenthesised region that lexes ends at a closing parenthesis inside
/// the text.
pub proof fn lemma_closes(s: Seq<char>, pos: nat)
    ensures
        lex_items(s, pos, true) matches Ok((_, n)) ==> pos + n < s.len() && s[(pos + n) as int] == ')',
    decreases left(s.len(), pos),
{
    if pos >= s.len() {
    } else if s[pos as int] == ')' {
    } else if s[pos as int] == '(' {
        if pos + 1 < s.len() && s[(pos + 1) as int] == ')' {
            lemma_closes(s, pos + 2);
        } else {
            lemma_closes(s, pos + 1);
            match lex_items(s, pos + 1, true) {
                Ok((inner, n)) => {
                    lemma_closes(s, pos + n + 2);
                },
                Err(e) => {},
            }
        }
    } else if white_space(s[pos as int]) {
        lemma_closes(s, pos + 1);
    } else {
        match simple_token(s, pos) {
            Lexeme::Token(t, more) => {
                lemma_closes(s, pos + 1 + more);
            },
            _ => {},
        }
    }
}

/// Lexes a source text.
///
/// Returns the tokens that the model `lex` gives for the text, each with the
/// span of character offsets it was read from, or the error that `lex` gives.
pub fn lexer(src: &str) -> (r: Result<Vec<(Token, Span)>, LexError>)
    ensures
        match r {
            Ok(tokens) => lex(src@) == Ok::<TokenSeq, LexError>(tokens_view(tokens@)),
            Err(e) => lex(src@) == Err::<TokenSeq, LexError>(e),
        },
{
    let chars = chars_of(src);
    match lex_group(&chars, 0, false) {
        Ok((tokens, _)) => Ok(tokens),
        Err(e) => Err(e),
    }
}

} // verus!
