//! The scanner: a cursor over the source text that hands out one token per call.
use crate::chars::{is_digit, is_letter, is_whitespace, lexeme_kind};
use crate::scan::{number_end, token_at, token_end, token_start, word_end};
use crate::token::{lookup_ident, Token, EOF, ILLEGAL, INT};
use vstd::prelude::*;
use vstd::string::StrSliceExecFns;

verus! {

/// Where the scanner stands in its input.
#[derive(Debug, Clone, Copy)]
struct Cursor {
    /// Index of the character under examination; the length of the input once none is left.
    position: usize,
    /// Index of the character to read next: always one past `position`, as far as
    /// a `usize` can count.
    read_position: usize,
    /// The character under examination, `None` past the end of the input.
    ch: Option<char>,
}

/// The index that follows `i`. The scanner counts in `usize`, so the largest
/// index is followed by itself.
pub open spec fn index_after(i: int) -> int {
    if i < usize::MAX {
        i + 1
    } else {
        i
    }
}

/// A scanner over one source text. Positions count characters, not bytes.
#[derive(Debug)]
pub struct Lexer {
    input: String,
    /// Number of characters of `input`.
    length: usize,
    cursor: Cursor,
}

impl Lexer {
    #[verifier::type_invariant]
    spec fn well_formed(self) -> bool {
        let cursor = self.cursor;
        &&& self.length == self.input@.len()
        &&& cursor.position <= self.length
        &&& cursor.read_position == cursor.position.saturating_add(1)
        &&& cursor.ch == if cursor.position < self.length {
            Some(self.input@[cursor.position as int])
        } else {
            None
        }
    }

    /// The text that this scanner reads. It never changes.
    pub closed spec fn source(&self) -> Seq<char> {
        self.input@
    }

    /// How many characters of the source lie behind the scanner. It is the length
    /// of the source once the scanner is exhausted.
    pub closed spec fn offset(&self) -> int {
        if self.cursor.position <= self.input@.len() {
            self.cursor.position as int
        } else {
            self.input@.len() as int
        }
    }

    /// The index of the character that the scanner reads when it next moves on.
    pub closed spec fn read_offset(&self) -> int {
        self.cursor.read_position as int
    }

    /// The offset never leaves the source.
    pub proof fn lemma_offset_in_source(&self)
        ensures
            0 <= self.offset() <= self.source().len(),
    {
    }

    /// Starts a scanner at the first character of `input`. An empty input is
    /// valid: its scanner is exhausted from the start.
    pub fn new(input: &str) -> (lexer: Self)
        ensures
            lexer.source() == input@,
            lexer.offset() == 0,
            lexer.read_offset() == 1,
    {
        let length = input.unicode_len();
        let ch = if length > 0 {
            Some(input.get_char(0))
        } else {
            None
        };
        let cursor = Cursor { position: 0, read_position: 1, ch };
        Lexer { input: input.to_owned(), length, cursor }
    }

    /// The character under examination, if one is left.
    fn current(&self) -> (ch: Option<char>)
        ensures
            0 <= self.offset() <= self.source().len(),
            ch == if self.offset() < self.source().len() {
                Some(self.source()[self.offset()])
            } else {
                None::<char>
            },
    {
        proof {
            use_type_invariant(self);
        }
        self.cursor.ch
    }

    /// Moves on by one character. Past the end of the input there is no
    /// character, and moving on changes nothing.
    fn read_char(&mut self)
        ensures
            final(self).source() == old(self).source(),
            final(self).offset() == if old(self).offset() < old(self).source().len() {
                old(self).offset() + 1
            } else {
                old(self).offset()
            },
            final(self).read_offset() == index_after(final(self).offset()),
    {
        proof {
            use_type_invariant(&*self);
        }
        let next = self.cursor.read_position;
        if next >= self.length {
            let end = self.length;
            self.cursor = Cursor { position: end, read_position: end.saturating_add(1), ch: None };
        } else {
            let ch = self.input.as_str().get_char(next);
            self.cursor = Cursor { position: next, read_position: next + 1, ch: Some(ch) };
        }
    }

    /// The source text from offset `from` up to the cursor.
    fn text_since(&self, from: usize) -> (text: String)
        requires
            from <= self.offset(),
        ensures
            text@ == self.source().subrange(from as int, self.offset()),
    {
        proof {
            use_type_invariant(self);
        }
        self.input.as_str().substring_char(from, self.cursor.position).to_owned()
    }

    /// Reads the digits at the cursor and returns them as they stand.
    fn read_number(&mut self) -> (number: String)
        ensures
            final(self).source() == old(self).source(),
            final(self).offset() == number_end(old(self).source(), old(self).offset()),
            number@ == old(self).source().subrange(old(self).offset(), final(self).offset()),
    {
        proof {
            use_type_invariant(&*self);
        }
        let position = self.cursor.position;
        loop
            invariant
                self.source() == old(self).source(),
                position <= self.offset() <= self.source().len(),
                number_end(self.source(), position as int) == number_end(
                    self.source(),
                    self.offset(),
                ),
            ensures
                self.source() == old(self).source(),
                position <= self.offset(),
                self.offset() == number_end(self.source(), position as int),
            decreases self.source().len() - self.offset(),
        {
            match self.current() {
                Some(c) => {
                    if !is_digit(c) {
                        break ;
                    }
                },
                None => {
                    break ;
                },
            }
            self.read_char();
        }
        self.text_since(position)
    }

    /// Reads the letters and underscores at the cursor and returns them as they stand.
    fn read_identifier(&mut self) -> (ident: String)
        ensures
            final(self).source() == old(self).source(),
            final(self).offset() == word_end(old(self).source(), old(self).offset()),
            ident@ == old(self).source().subrange(old(self).offset(), final(self).offset()),
    {
        proof {
            use_type_invariant(&*self);
        }
        let position = self.cursor.position;
        loop
            invariant
                self.source() == old(self).source(),
                position <= self.offset() <= self.source().len(),
                word_end(self.source(), position as int) == word_end(
                    self.source(),
                    self.offset(),
                ),
            ensures
                self.source() == old(self).source(),
                position <= self.offset(),
                self.offset() == word_end(self.source(), position as int),
            decreases self.source().len() - self.offset(),
        {
            match self.current() {
                Some(c) => {
                    if !is_letter(c) {
                        break ;
                    }
                },
                None => {
                    break ;
                },
            }
            self.read_char();
        }
        self.text_since(position)
    }

    /// Moves past the blanks at the cursor, up to the next character that is none
    /// or to the end of the input.
    fn skip_whitespace(&mut self)
        ensures
            final(self).source() == old(self).source(),
            final(self).offset() == token_start(old(self).source(), old(self).offset()),
    {
        loop
            invariant
                self.source() == old(self).source(),
                0 <= self.offset() <= self.source().len(),
                token_start(self.source(), old(self).offset()) == token_start(
                    self.source(),
                    self.offset(),
                ),
            ensures
                self.source() == old(self).source(),
                self.offset() == token_start(self.source(), old(self).offset()),
            decreases self.source().len() - self.offset(),
        {
            match self.current() {
                Some(c) => {
                    if !is_whitespace(c) {
                        break ;
                    }
                },
                None => {
                    break ;
                },
            }
            self.read_char();
        }
    }

    /// Reads the next token and moves past it. At the end of the input the token is
    /// the end-of-input token, on this call and on every later one.
    pub fn next_token(&mut self) -> (token: Token)
        ensures
            final(self).source() == old(self).source(),
            final(self).offset() == token_end(old(self).source(), old(self).offset()),
            final(self).read_offset() == index_after(final(self).offset()),
            token@ == token_at(old(self).source(), old(self).offset()),
    {
        self.skip_whitespace();
        let start = self.current();
        proof {
            use_type_invariant(&*self);
        }
        let position = self.cursor.position;
        let token = match start {
            None => {
                assert(self.source().subrange(self.offset(), self.offset()) == Seq::<char>::empty());
                Token::new(EOF, String::new())
            },
            Some(c) => {
                if let Some(kind) = lexeme_kind(c) {
                    self.read_char();
                    Token::new(kind, self.text_since(position))
                } else if is_letter(c) {
                    let ident = self.read_identifier();
                    let kind = lookup_ident(ident.as_str());
                    Token::new(kind, ident)
                } else if is_digit(c) {
                    let number = self.read_number();
                    Token::new(INT, number)
                } else {
                    self.read_char();
                    Token::new(ILLEGAL, self.text_since(position))
                }
            },
        };
        proof {
            use_type_invariant(&*self);
        }
        token
    }
}

} // verus!
