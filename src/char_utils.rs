use vstd::prelude::*;
use crate::token::{
    BOOLEAN, CI_CONFIG, COMMAND, COMPLEX, DEPLOYMENT, ELSE, FUNC, IF, INTEGER, MANIFEST, REPO,
    RETURN, RUNE, STRING, USER, VAR, VOID, WHILE,
};

verus! {

/// Whether `c` has Unicode's Alphabetic property, as `char::is_alphabetic` reports it.
pub uninterp spec fn alphabetic(c: char) -> bool;

/// Relies on `char::is_alphabetic`: whether `c` has the Alphabetic property.
#[verifier::external_body]
fn char_is_alphabetic(c: char) -> (r: bool)
    ensures
        r == alphabetic(c),
{
    c.is_alphabetic()
}

pub open spec fn digit(c: char) -> bool {
    '0' <= c <= '9'
}

/// The characters that begin an operator token.
pub open spec fn operator_char(c: char) -> bool {
    comparison_char(c) || arithmetic_char(c) || logical_char(c)
}

pub open spec fn comparison_char(c: char) -> bool {
    c == '=' || c == '!' || c == '<' || c == '>'
}

pub open spec fn arithmetic_char(c: char) -> bool {
    c == '+' || c == '-' || c == '*' || c == '/' || c == '.'
}

pub open spec fn logical_char(c: char) -> bool {
    c == '&' || c == '|'
}

pub open spec fn whitespace_char(c: char) -> bool {
    c == ' ' || c == '\t' || c == '\n'
}

/// The spellings of all operator tokens.
pub open spec fn operator_word(w: Seq<char>) -> bool {
    ||| w == seq!['|']
    ||| w == seq!['&']
    ||| w == seq!['!']
    ||| w == seq!['&', '&']
    ||| w == seq!['|', '|']
    ||| w == seq!['=', '=']
    ||| w == seq!['!', '=']
    ||| w == seq!['<']
    ||| w == seq!['>']
    ||| w == seq!['<', '=']
    ||| w == seq!['>', '=']
    ||| w == seq!['+']
    ||| w == seq!['-']
    ||| w == seq!['*']
    ||| w == seq!['/']
    ||| w == seq!['=']
    ||| w == seq!['.']
    ||| w == seq!['+', '+']
    ||| w == seq!['-', '-']
}

/// The reserved words of the language.
pub open spec fn reserved_word(w: Seq<char>) -> bool {
    ||| w == INTEGER@
    ||| w == RUNE@
    ||| w == STRING@
    ||| w == BOOLEAN@
    ||| w == USER@
    ||| w == REPO@
    ||| w == CI_CONFIG@
    ||| w == DEPLOYMENT@
    ||| w == MANIFEST@
    ||| w == IF@
    ||| w == ELSE@
    ||| w == WHILE@
    ||| w == VOID@
    ||| w == VAR@
    ||| w == COMPLEX@
    ||| w == RETURN@
    ||| w == COMMAND@
    ||| w == FUNC@
}

pub open spec fn boolean_word(w: Seq<char>) -> bool {
    w == "true"@ || w == "false"@
}

/// Whether two strings hold the same characters.
pub fn same_text(a: &str, b: &str) -> (r: bool)
    ensures
        r == (a@ == b@),
{
    let n = a.unicode_len();
    if n != b.unicode_len() {
        return false;
    }
    let mut i: usize = 0;
    while i < n
        invariant
            n == a@.len(),
            n == b@.len(),
            i <= n,
            a@.subrange(0, i as int) == b@.subrange(0, i as int),
        decreases n - i,
    {
        if a.get_char(i) != b.get_char(i) {
            assert(a@[i as int] != b@[i as int]);
            return false;
        }
        assert(a@.subrange(0, i + 1) == a@.subrange(0, i as int).push(a@[i as int]));
        assert(b@.subrange(0, i + 1) == b@.subrange(0, i as int).push(b@[i as int]));
        i = i + 1;
    }
    assert(a@ == a@.subrange(0, n as int));
    assert(b@ == b@.subrange(0, n as int));
    true
}

pub fn is_letter(c: char) -> (r: bool)
    ensures
        r == alphabetic(c),
{
    char_is_alphabetic(c)
}

pub fn is_digit(c: char) -> (r: bool)
    ensures
        r == digit(c),
{
    '0' <= c && c <= '9'
}

pub fn is_operator(s: &str) -> (r: bool)
    ensures
        r == operator_word(s@),
        s@.len() == 1 ==> r == operator_char(s@[0]),
{
    let n = s.unicode_len();
    if n == 1 {
        let c = s.get_char(0);
        assert(s@ == seq![c]);
        is_comparison_operator(c) || is_arithmetic_operator(c) || is_logical_operator(c)
    } else if n == 2 {
        let c = s.get_char(0);
        let d = s.get_char(1);
        assert(s@ == seq![c, d]);
        if d == '=' {
            c == '=' || c == '!' || c == '<' || c == '>'
        } else {
            c == d && (c == '&' || c == '|' || c == '+' || c == '-')
        }
    } else {
        false
    }
}

pub fn is_comparison_operator(c: char) -> (r: bool)
    ensures
        r == comparison_char(c),
{
    c == '=' || c == '!' || c == '<' || c == '>'
}

pub fn is_arithmetic_operator(c: char) -> (r: bool)
    ensures
        r == arithmetic_char(c),
{
    c == '+' || c == '-' || c == '*' || c == '/' || c == '.'
}

pub fn is_postfix_operator(c: char) -> (r: bool)
    ensures
        r == (c == '+' || c == '-'),
{
    c == '+' || c == '-'
}

pub fn is_logical_operator(c: char) -> (r: bool)
    ensures
        r == logical_char(c),
{
    c == '&' || c == '|'
}

pub fn is_parenthesis(c: char) -> (r: bool)
    ensures
        r == (c == '(' || c == ')'),
{
    c == '(' || c == ')'
}

pub fn is_new_line(c: char) -> (r: bool)
    ensures
        r == (c == '\n'),
{
    c == '\n'
}

pub fn is_whitespace_or_new_line(c: char) -> (r: bool)
    ensures
        r == whitespace_char(c),
{
    c == ' ' || c == '\t' || is_new_line(c)
}

pub fn is_punctuation(c: char) -> (r: bool)
    ensures
        r == (c == ';' || c == ','),
{
    c == ';' || c == ','
}

pub fn is_identifier_reserved(identifier: &str) -> (r: bool)
    ensures
        r == reserved_word(identifier@),
{
    same_text(identifier, INTEGER) || same_text(identifier, RUNE) || same_text(identifier, STRING)
        || same_text(identifier, BOOLEAN) || same_text(identifier, USER) || same_text(
        identifier,
        REPO,
    ) || same_text(identifier, CI_CONFIG) || same_text(identifier, DEPLOYMENT) || same_text(
        identifier,
        MANIFEST,
    ) || same_text(identifier, IF) || same_text(identifier, ELSE) || same_text(identifier, WHILE)
        || same_text(identifier, VOID) || same_text(identifier, VAR) || same_text(
        identifier,
        COMPLEX,
    ) || same_text(identifier, RETURN) || same_text(identifier, COMMAND) || same_text(
        identifier,
        FUNC,
    )
}

pub fn is_bracket(c: char) -> (r: bool)
    ensures
        r == (c == '{' || c == '}'),
{
    c == '{' || c == '}'
}

pub fn is_boolean_literal(identifier: &str) -> (r: bool)
    ensures
        r == boolean_word(identifier@),
{
    same_text(identifier, "true") || same_text(identifier, "false")
}

/// The truth value that a boolean literal spells.
pub fn return_boolean_value(string_boolean: &str) -> (r: bool)
    ensures
        r == (string_boolean@ == "true"@),
{
    same_text(string_boolean, "true")
}

} // verus!
