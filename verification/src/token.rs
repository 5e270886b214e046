//! The token catalog: the kinds of token, the token itself and the keyword lookup.
use vstd::prelude::*;

verus! {

/// The category of a token. The set is closed: every token has exactly one of these kinds.
#[derive(Debug, Clone, Copy, PartialEq, Eq, Structural)]
pub enum TokenType {
    /// A character that starts no token of the language.
    Illegal,
    /// The end of the input.
    Eof,
    /// A name that is not reserved.
    Ident,
    /// A run of decimal digits.
    Int,
    /// `=`
    Assign,
    /// `+`
    Plus,
    /// `-`
    Minus,
    /// `!`
    Bang,
    /// `*`
    Asterisk,
    /// `/`
    Slash,
    /// `<`
    Lt,
    /// `>`
    Gt,
    /// `,`
    Comma,
    /// `;`
    Semicolon,
    /// `(`
    Lparen,
    /// `)`
    Rparen,
    /// `{`
    Lbrace,
    /// `}`
    Rbrace,
    /// The reserved word `fn`.
    Function,
    /// The reserved word `let`.
    Let,
    /// The reserved word `true`.
    True,
    /// The reserved word `false`.
    False,
    /// The reserved word `if`.
    If,
    /// The reserved word `else`.
    Else,
    /// The reserved word `return`.
    Return,
}

pub const ILLEGAL: TokenType = TokenType::Illegal;

pub const EOF: TokenType = TokenType::Eof;

pub const IDENT: TokenType = TokenType::Ident;

pub const INT: TokenType = TokenType::Int;

pub const ASSIGN: TokenType = TokenType::Assign;

pub const PLUS: TokenType = TokenType::Plus;

pub const MINUS: TokenType = TokenType::Minus;

pub const BANG: TokenType = TokenType::Bang;

pub const ASTERISK: TokenType = TokenType::Asterisk;

pub const SLASH: TokenType = TokenType::Slash;

pub const LT: TokenType = TokenType::Lt;

pub const GT: TokenType = TokenType::Gt;

pub const COMMA: TokenType = TokenType::Comma;

pub const SEMICOLON: TokenType = TokenType::Semicolon;

pub const LPAREN: TokenType = TokenType::Lparen;

pub const RPAREN: TokenType = TokenType::Rparen;

pub const LBRACE: TokenType = TokenType::Lbrace;

pub const RBRACE: TokenType = TokenType::Rbrace;

pub const FUNCTION: TokenType = TokenType::Function;

pub const LET: TokenType = TokenType::Let;

pub const TRUE: TokenType = TokenType::True;

pub const FALSE: TokenType = TokenType::False;

pub const IF: TokenType = TokenType::If;

pub const ELSE: TokenType = TokenType::Else;

pub const RETURN: TokenType = TokenType::Return;

/// A token: its kind together with the exact source text that produced it.
#[derive(Debug, PartialEq)]
pub struct Token {
    pub kind: TokenType,
    pub literal: String,
}

/// What a token is in contracts: its kind and the characters of its literal.
pub struct TokenView {
    pub kind: TokenType,
    pub literal: Seq<char>,
}

impl View for Token {
    type V = TokenView;

    open spec fn view(&self) -> TokenView {
        TokenView { kind: self.kind, literal: self.literal@ }
    }
}

impl Token {
    /// Pairs a kind with its literal text. The text is kept as given.
    pub fn new(kind: TokenType, literal: String) -> (token: Self)
        ensures
            token.kind == kind,
            token.literal == literal,
    {
        Token { kind, literal }
    }
}

/// The kinds that a word can have: the reserved words and the identifier.
pub open spec fn is_word_kind(kind: TokenType) -> bool {
    kind == TokenType::Function || kind == TokenType::Let || kind == TokenType::True || kind
        == TokenType::False || kind == TokenType::If || kind == TokenType::Else || kind
        == TokenType::Return || kind == TokenType::Ident
}

/// The kind of the word `text`: the reserved word that `text` spells exactly, letter for
/// letter and case for case, and an identifier for every other text.
pub open spec fn keyword_kind(text: Seq<char>) -> TokenType {
    if text == seq!['f', 'n'] {
        TokenType::Function
    } else if text == seq!['l', 'e', 't'] {
        TokenType::Let
    } else if text == seq!['t', 'r', 'u', 'e'] {
        TokenType::True
    } else if text == seq!['f', 'a', 'l', 's', 'e'] {
        TokenType::False
    } else if text == seq!['i', 'f'] {
        TokenType::If
    } else if text == seq!['e', 'l', 's', 'e'] {
        TokenType::Else
    } else if text == seq!['r', 'e', 't', 'u', 'r', 'n'] {
        TokenType::Return
    } else {
        TokenType::Ident
    }
}

/// Reserved words are exact. A text has the kind of a reserved word if and only
/// if it is that word's spelling, case for case, with nothing before or after;
/// every other text is an identifier, and no text has any further kind.
pub proof fn lemma_reserved_words_exact(text: Seq<char>)
    ensures
        keyword_kind(text) == TokenType::Function <==> text == seq!['f', 'n'],
        keyword_kind(text) == TokenType::Let <==> text == seq!['l', 'e', 't'],
        keyword_kind(text) == TokenType::True <==> text == seq!['t', 'r', 'u', 'e'],
        keyword_kind(text) == TokenType::False <==> text == seq!['f', 'a', 'l', 's', 'e'],
        keyword_kind(text) == TokenType::If <==> text == seq!['i', 'f'],
        keyword_kind(text) == TokenType::Else <==> text == seq!['e', 'l', 's', 'e'],
        keyword_kind(text) == TokenType::Return <==> text == seq!['r', 'e', 't', 'u', 'r', 'n'],
        keyword_kind(text) == TokenType::Ident <==> {
            &&& text != seq!['f', 'n']
            &&& text != seq!['l', 'e', 't']
            &&& text != seq!['t', 'r', 'u', 'e']
            &&& text != seq!['f', 'a', 'l', 's', 'e']
            &&& text != seq!['i', 'f']
            &&& text != seq!['e', 'l', 's', 'e']
            &&& text != seq!['r', 'e', 't', 'u', 'r', 'n']
        },
        is_word_kind(keyword_kind(text)),
{
    assert(seq!['f', 'n'][0] != seq!['i', 'f'][0]);
    assert(seq!['t', 'r', 'u', 'e'][0] != seq!['e', 'l', 's', 'e'][0]);
    assert(seq!['f', 'n'].len() == 2 && seq!['i', 'f'].len() == 2);
    assert(seq!['l', 'e', 't'].len() == 3);
    assert(seq!['t', 'r', 'u', 'e'].len() == 4 && seq!['e', 'l', 's', 'e'].len() == 4);
    assert(seq!['f', 'a', 'l', 's', 'e'].len() == 5);
    assert(seq!['r', 'e', 't', 'u', 'r', 'n'].len() == 6);
}

/// Whether two texts hold the same characters in the same order.
fn same_text(a: &str, b: &str) -> (same: bool)
    ensures
        same == (a@ == b@),
{
    let n = a.unicode_len();
    if n != b.unicode_len() {
        return false;
    }
    let mut i: usize = 0;
    while i < n
        invariant
            n == a@.len(),
            n == b@.len(),
            i <= n,
            a@.take(i as int) == b@.take(i as int),
        decreases n - i,
    {
        if a.get_char(i) != b.get_char(i) {
            return false;
        }
        assert(a@.take(i + 1) == a@.take(i as int).push(a@[i as int]));
        assert(b@.take(i + 1) == b@.take(i as int).push(b@[i as int]));
        i += 1;
    }
    assert(a@ == a@.take(n as int));
    assert(b@ == b@.take(n as int));
    true
}

/// Classifies a word as one of the reserved words or as an identifier.
pub fn lookup_ident(ident: &str) -> (kind: TokenType)
    ensures
        kind == keyword_kind(ident@),
{
    proof {
        reveal_strlit("fn");
        reveal_strlit("let");
        reveal_strlit("true");
        reveal_strlit("false");
        reveal_strlit("if");
        reveal_strlit("else");
        reveal_strlit("return");
        assert("fn"@ == seq!['f', 'n']);
        assert("let"@ == seq!['l', 'e', 't']);
        assert("true"@ == seq!['t', 'r', 'u', 'e']);
        assert("false"@ == seq!['f', 'a', 'l', 's', 'e']);
        assert("if"@ == seq!['i', 'f']);
        assert("else"@ == seq!['e', 'l', 's', 'e']);
        assert("return"@ == seq!['r', 'e', 't', 'u', 'r', 'n']);
    }
    if same_text(ident, "fn") {
        FUNCTION
    } else if same_text(ident, "let") {
        LET
    } else if same_text(ident, "true") {
        TRUE
    } else if same_text(ident, "false") {
        FALSE
    } else if same_text(ident, "if") {
        IF
    } else if same_text(ident, "else") {
        ELSE
    } else if same_text(ident, "return") {
        RETURN
    } else {
        IDENT
    }
}

} // verus!
