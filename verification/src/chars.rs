//! Character classes of the language.
//!
//! Every class is a predicate on a single `char`. Each executable test has a
//! specification twin, so the same name can be used in code and in contracts.
use crate::token::TokenType;
use vstd::prelude::*;

verus! {

/// Blank characters between tokens: space, tab, line feed and carriage return.
pub open spec fn spec_is_whitespace(c: char) -> bool {
    c == ' ' || c == '\t' || c == '\n' || c == '\r'
}

/// Characters of identifiers and keywords: ASCII letters and the underscore.
pub open spec fn spec_is_letter(c: char) -> bool {
    ('a' <= c && c <= 'z') || ('A' <= c && c <= 'Z') || c == '_'
}

/// ASCII decimal digits.
pub open spec fn spec_is_digit(c: char) -> bool {
    '0' <= c && c <= '9'
}

/// The kind of the one-character token that `c` spells, if it spells one.
pub open spec fn spec_lexeme_kind(c: char) -> Option<TokenType> {
    if c == '=' {
        Some(TokenType::Assign)
    } else if c == '+' {
        Some(TokenType::Plus)
    } else if c == '-' {
        Some(TokenType::Minus)
    } else if c == '!' {
        Some(TokenType::Bang)
    } else if c == '*' {
        Some(TokenType::Asterisk)
    } else if c == '/' {
        Some(TokenType::Slash)
    } else if c == '<' {
        Some(TokenType::Lt)
    } else if c == '>' {
        Some(TokenType::Gt)
    } else if c == ',' {
        Some(TokenType::Comma)
    } else if c == ';' {
        Some(TokenType::Semicolon)
    } else if c == '(' {
        Some(TokenType::Lparen)
    } else if c == ')' {
        Some(TokenType::Rparen)
    } else if c == '{' {
        Some(TokenType::Lbrace)
    } else if c == '}' {
        Some(TokenType::Rbrace)
    } else {
        None
    }
}

/// Whether `c` separates tokens without being one.
#[verifier::when_used_as_spec(spec_is_whitespace)]
pub fn is_whitespace(c: char) -> (b: bool)
    ensures
        b == spec_is_whitespace(c),
{
    c == ' ' || c == '\t' || c == '\n' || c == '\r'
}

/// Whether `c` may stand in an identifier or keyword.
#[verifier::when_used_as_spec(spec_is_letter)]
pub fn is_letter(c: char) -> (b: bool)
    ensures
        b == spec_is_letter(c),
{
    'a' <= c && c <= 'z' || 'A' <= c && c <= 'Z' || c == '_'
}

/// Whether `c` may stand in an integer literal.
#[verifier::when_used_as_spec(spec_is_digit)]
pub fn is_digit(c: char) -> (b: bool)
    ensures
        b == spec_is_digit(c),
{
    '0' <= c && c <= '9'
}

/// Looks `c` up among the operators and delimiters, each of which is a token by itself.
#[verifier::when_used_as_spec(spec_lexeme_kind)]
pub fn lexeme_kind(c: char) -> (kind: Option<TokenType>)
    ensures
        kind == spec_lexeme_kind(c),
{
    match c {
        '=' => Some(TokenType::Assign),
        '+' => Some(TokenType::Plus),
        '-' => Some(TokenType::Minus),
        '!' => Some(TokenType::Bang),
        '*' => Some(TokenType::Asterisk),
        '/' => Some(TokenType::Slash),
        '<' => Some(TokenType::Lt),
        '>' => Some(TokenType::Gt),
        ',' => Some(TokenType::Comma),
        ';' => Some(TokenType::Semicolon),
        '(' => Some(TokenType::Lparen),
        ')' => Some(TokenType::Rparen),
        '{' => Some(TokenType::Lbrace),
        '}' => Some(TokenType::Rbrace),
        _ => None,
    }
}

/// The four classes that start something are pairwise disjoint: no character is
/// at once blank, an operator or delimiter, a letter, or a digit.
pub proof fn lemma_classes_disjoint(c: char)
    ensures
        is_whitespace(c) ==> lexeme_kind(c) is None && !is_letter(c) && !is_digit(c),
        lexeme_kind(c) is Some ==> !is_letter(c) && !is_digit(c),
        is_letter(c) ==> !is_digit(c),
{
}

} // verus!
