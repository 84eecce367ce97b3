//! Characters, strings and decimal numerals.

use vstd::prelude::*;
use vstd::std_specs::iter::IteratorSpec;

verus! {

/// Whether a character has the Unicode `White_Space` property: the
/// controls from tab to carriage return, the space, next line, the
/// no-break space, the Ogham space mark, the spaces from en quad to hair
/// space, the line and paragraph separators, the narrow no-break space, the
/// medium mathematical space and the ideographic space.
pub open spec fn white_space(c: char) -> bool {
    ('\u{9}' <= c && c <= '\u{d}') || c == ' ' || c == '\u{85}' || c == '\u{a0}' || c
        == '\u{1680}' || ('\u{2000}' <= c && c <= '\u{200a}') || c == '\u{2028}' || c
        == '\u{2029}' || c == '\u{202f}' || c == '\u{205f}' || c == '\u{3000}'
}

/// Whether a character beyond ASCII has the Unicode `XID_Start` property.
pub uninterp spec fn xid_start(c: char) -> bool;

/// Whether a character beyond ASCII has the Unicode `XID_Continue`
/// property.
pub uninterp spec fn xid_continue(c: char) -> bool;

/// Whether a character is an ASCII letter.
pub open spec fn ascii_letter(c: char) -> bool {
    ('a' <= c && c <= 'z') || ('A' <= c && c <= 'Z')
}

/// Whether a character may start an identifier: in ASCII a letter or the
/// underscore, beyond ASCII a character with the property `XID_Start`.
pub open spec fn ident_start(c: char) -> bool {
    if c <= '\x7f' {
        ascii_letter(c) || c == '_'
    } else {
        xid_start(c)
    }
}

/// Whether a character may continue an identifier: in ASCII a letter, a
/// digit or the underscore, beyond ASCII a character with the property
/// `XID_Continue`.
pub open spec fn ident_continue(c: char) -> bool {
    if c <= '\x7f' {
        ascii_letter(c) || is_digit(c) || c == '_'
    } else {
        xid_continue(c)
    }
}

/// Whether a character beyond ASCII has the Unicode `Uppercase` property.
pub uninterp spec fn upper_beyond_ascii(c: char) -> bool;

/// Whether a character has the Unicode `Uppercase` property: in ASCII the
/// letters from `A` to `Z`.
pub open spec fn upper_case(c: char) -> bool {
    if c <= '\x7f' {
        'A' <= c && c <= 'Z'
    } else {
        upper_beyond_ascii(c)
    }
}

/// `chumsky::text::Char::is_whitespace` on a `char`, which is
/// `char::is_whitespace`: whether the character has the Unicode property
/// `White_Space`.
#[verifier::external_body]
pub(crate) fn is_white_space(c: char) -> (b: bool)
    ensures
        b == white_space(c),
{
    chumsky::text::Char::is_whitespace(&c)
}

/// `chumsky::text::Char::is_ident_start` on a `char`: the underscore, or
/// what `unicode_ident::is_xid_start` accepts, which in ASCII are the
/// letters. Beyond ASCII the answer is named; it depends on the character
/// alone.
#[verifier::external_body]
pub(crate) fn is_ident_start(c: char) -> (b: bool)
    ensures
        b == ident_start(c),
        c > '\x7f' ==> b == xid_start(c),
{
    chumsky::text::Char::is_ident_start(&c)
}

/// `chumsky::text::Char::is_ident_continue` on a `char`: what
/// `unicode_ident::is_xid_continue` accepts, which in ASCII are the letters,
/// the digits and the underscore. Beyond ASCII the answer is named; it
/// depends on the character alone.
#[verifier::external_body]
pub(crate) fn is_ident_continue(c: char) -> (b: bool)
    ensures
        b == ident_continue(c),
        c > '\x7f' ==> b == xid_continue(c),
{
    chumsky::text::Char::is_ident_continue(&c)
}

/// `char::is_uppercase`: whether the character has the Unicode property
/// `Uppercase`, which in ASCII the letters from `A` to `Z` have. Beyond
/// ASCII the answer is named; it depends on the character alone.
#[verifier::external_body]
pub(crate) fn is_upper_case(c: char) -> (b: bool)
    ensures
        b == upper_case(c),
        c > '\x7f' ==> b == upper_beyond_ascii(c),
{
    c.is_uppercase()
}

/// `String::push` appends one character.
pub assume_specification[ std::string::String::push ](s: &mut std::string::String, c: char)
    ensures
        final(s)@ == old(s)@.push(c),
;

/// The characters of a string, in order.
#[verifier::loop_isolation(false)]
pub fn chars_of(s: &str) -> (v: Vec<char>)
    ensures
        v@ == s@,
{
    let mut v: Vec<char> = Vec::new();
    let chars_it = s.chars();
    for c in it: chars_it
        invariant
            v@ == s@.take(it.index@),
    {
        v.push(c);
    }
    v
}

/// How many items are left from position `pos` in a sequence of `len`.
pub open spec fn left(len: nat, pos: nat) -> nat {
    if pos <= len {
        (len - pos) as nat
    } else {
        0
    }
}

/// The decimal digit for a number below ten.
pub open spec fn digit_char(d: nat) -> char {
    (48 + d) as char
}

/// The value of a decimal digit.
pub open spec fn digit_value(c: char) -> nat {
    (c as nat - 48) as nat
}

/// Whether a character is one of `0` to `9`.
pub open spec fn is_digit(c: char) -> bool {
    '0' <= c && c <= '9'
}

/// The decimal numeral of a natural number, without leading zeros.
pub open spec fn nat_text(n: nat) -> Seq<char>
    decreases n,
{
    if n < 10 {
        seq![digit_char(n)]
    } else {
        nat_text(n / 10).push(digit_char(n % 10))
    }
}

/// The decimal numeral of an integer, with a leading minus sign below zero.
pub open spec fn int_text(i: int) -> Seq<char> {
    if i < 0 {
        seq!['-'] + nat_text((-i) as nat)
    } else {
        nat_text(i as nat)
    }
}

/// The number that a sequence of decimal digits denotes.
pub open spec fn digits_value(s: Seq<char>) -> nat
    decreases s.len(),
{
    if s.len() == 0 {
        0
    } else {
        digits_value(s.drop_last()) * 10 + digit_value(s.last())
    }
}

/// Whether a character is a decimal digit.
pub fn char_is_digit(c: char) -> (b: bool)
    ensures
        b == is_digit(c),
{
    '0' <= c && c <= '9'
}

/// Appends the decimal numeral of `n` to `out`.
pub fn push_nat(out: &mut String, n: u64)
    ensures
        final(out)@ == old(out)@ + nat_text(n as nat),
    decreases n,
{
    if n < 10 {
        let d: u8 = n as u8;
        out.push((48u8 + d) as char);
        assert(final(out)@ =~= old(out)@ + nat_text(n as nat));
    } else {
        push_nat(out, n / 10);
        let d: u8 = (n % 10) as u8;
        out.push((48u8 + d) as char);
        assert(final(out)@ =~= old(out)@ + nat_text(n as nat));
    }
}

/// The decimal numeral of a 32-bit integer.
pub fn i32_to_string(i: i32) -> (s: String)
    ensures
        s@ == int_text(i as int),
{
    let mut s = String::new();
    if i < 0 {
        s.push('-');
        let m: u64 = (-(i as i64)) as u64;
        push_nat(&mut s, m);
        assert(s@ =~= int_text(i as int));
    } else {
        push_nat(&mut s, i as u64);
        assert(s@ =~= int_text(i as int));
    }
    s
}

/// The decimal numeral of an index.
pub fn usize_to_string(n: usize) -> (s: String)
    ensures
        s@ == nat_text(n as nat),
{
    let mut s = String::new();
    push_nat(&mut s, n as u64);
    assert(s@ =~= nat_text(n as nat));
    s
}

/// Whether the characters of `v` from `start` up to `end` spell `lit`.
pub fn slice_is(v: &Vec<char>, start: usize, end: usize, lit: &str) -> (b: bool)
    requires
        start <= end <= v@.len(),
    ensures
        b == (v@.subrange(start as int, end as int) == lit@),
{
    let n = lit.unicode_len();
    if end - start != n {
        return false;
    }
    let mut i: usize = 0;
    while i < n
        invariant
            i <= n,
            n == lit@.len(),
            start <= end <= v@.len(),
            end - start == n,
            forall|j: int| 0 <= j < i ==> v@[start + j] == lit@[j],
        decreases n - i,
    {
        if v[start + i] != lit.get_char(i) {
            assert(v@.subrange(start as int, end as int)[i as int] != lit@[i as int]);
            return false;
        }
        i = i + 1;
    }
    assert(v@.subrange(start as int, end as int) =~= lit@);
    true
}

/// Whether `lit` stands in `v` at position `pos`.
pub fn starts_with_at(v: &Vec<char>, pos: usize, lit: &str) -> (b: bool)
    requires
        pos <= v@.len(),
    ensures
        b == has_prefix_at(v@, pos as int, lit@),
{
    let n = lit.unicode_len();
    if v.len() - pos < n {
        return false;
    }
    slice_is(v, pos, pos + n, lit)
}

/// Whether `lit` stands in `s` at position `pos`.
pub open spec fn has_prefix_at(s: Seq<char>, pos: int, lit: Seq<char>) -> bool {
    pos + lit.len() <= s.len() && s.subrange(pos, pos + lit.len()) == lit
}

/// A string holding the characters of `v` from `start` up to `end`.
pub fn string_of(v: &Vec<char>, start: usize, end: usize) -> (s: String)
    requires
        start <= end <= v@.len(),
    ensures
        s@ == v@.subrange(start as int, end as int),
{
    let mut s = String::new();
    let mut i: usize = start;
    while i < end
        invariant
            start <= i <= end <= v@.len(),
            s@ == v@.subrange(start as int, i as int),
        decreases end - i,
    {
        s.push(v[i]);
        assert(v@.subrange(start as int, i + 1) =~= v@.subrange(start as int, i as int).push(v@[i as int]));
        i = i + 1;
    }
    s
}

/// A copy of a list of names.
pub fn clone_names(names: &Vec<String>) -> (out: Vec<String>)
    ensures
        names_view(out@) == names_view(names@),
        out@.len() == names@.len(),
{
    let mut out: Vec<String> = Vec::new();
    let mut i: usize = 0;
    while i < names.len()
        invariant
            i <= names@.len(),
            out@.len() == i,
            forall|j: int| 0 <= j < i ==> out@[j]@ == names@[j]@,
        decreases names@.len() - i,
    {
        out.push(names[i].clone());
        i = i + 1;
    }
    assert(names_view(out@) =~= names_view(names@));
    out
}

/// The texts of a list with `sep` between each two.
pub open spec fn join(parts: Seq<Seq<char>>, sep: Seq<char>) -> Seq<char>
    decreases parts.len(),
{
    if parts.len() == 0 {
        Seq::empty()
    } else if parts.len() == 1 {
        parts[0]
    } else {
        join(parts.drop_last(), sep) + sep + parts.last()
    }
}

/// Appends `part` to `out`, behind `sep` unless it is the first part.
pub proof fn lemma_join_push(parts: Seq<Seq<char>>, sep: Seq<char>, part: Seq<char>)
    ensures
        join(parts.push(part), sep) == if parts.len() == 0 {
            part
        } else {
            join(parts, sep) + sep + part
        },
{
    assert(parts.push(part).drop_last() =~= parts);
}

/// The strings of a list with `sep` between each two.
pub fn join_names(names: &Vec<String>, sep: &str) -> (s: String)
    ensures
        s@ == join(names_view(names@), sep@),
{
    let mut out = String::new();
    let mut i: usize = 0;
    assert(names_view(names@).take(0) =~= Seq::<Seq<char>>::empty());
    while i < names.len()
        invariant
            i <= names@.len(),
            out@ == join(names_view(names@).take(i as int), sep@),
        decreases names@.len() - i,
    {
        proof {
            lemma_join_push(names_view(names@).take(i as int), sep@, names@[i as int]@);
            assert(names_view(names@).take(i + 1) =~= names_view(names@).take(i as int).push(
                names@[i as int]@,
            ));
        }
        if i > 0 {
            out.append(sep);
        }
        out.append(names[i].as_str());
        assert(Seq::<char>::empty() + names@[i as int]@ =~= names@[i as int]@);
        i = i + 1;
    }
    assert(names_view(names@).take(names@.len() as int) =~= names_view(names@));
    out
}

/// The length of a text with its first, second and last character; a space
/// stands for a character that the text lacks. Texts that differ in one of
/// these are different texts.
pub open spec fn sig(s: Seq<char>) -> (nat, char, char, char) {
    (
        s.len(),
        if s.len() > 0 {
            s[0]
        } else {
            ' '
        },
        if s.len() > 1 {
            s[1]
        } else {
            ' '
        },
        if s.len() > 0 {
            s[s.len() - 1]
        } else {
            ' '
        },
    )
}

/// The names of a list of strings.
pub open spec fn names_view(names: Seq<String>) -> Seq<Seq<char>> {
    Seq::new(names.len(), |i: int| names[i]@)
}

} // verus!
