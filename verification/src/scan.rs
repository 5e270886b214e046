//! The scanning rules, stated over a sequence of characters and a cursor into it.
//!
//! The scanner in `lexer` is specified by the functions of this module: `token_at`
//! says which token it hands out from a given cursor, `token_end` where it leaves
//! the cursor.
use crate::chars::{is_digit, is_letter, is_whitespace, lexeme_kind};
use crate::token::{keyword_kind, lemma_reserved_words_exact, TokenType, TokenView};
use vstd::prelude::*;

verus! {

/// The index just past the longest run of characters of `s` that starts at `i` and
/// lies within the class `class`. It is `i` itself where no such character stands at `i`.
pub open spec fn run_end(s: Seq<char>, i: int, class: spec_fn(char) -> bool) -> int
    decreases s.len() - i,
{
    if 0 <= i < s.len() && class(s[i]) {
        run_end(s, i + 1, class)
    } else {
        i
    }
}

/// Where the token that is read from cursor `i` starts: past the blanks at `i`.
pub open spec fn token_start(s: Seq<char>, i: int) -> int {
    run_end(s, i, |c: char| is_whitespace(c))
}

/// Where the word that starts at `start` ends.
pub open spec fn word_end(s: Seq<char>, start: int) -> int {
    run_end(s, start, |c: char| is_letter(c))
}

/// Where the number that starts at `start` ends.
pub open spec fn number_end(s: Seq<char>, start: int) -> int {
    run_end(s, start, |c: char| is_digit(c))
}

/// Whether nothing but blanks is left from cursor `i` on.
pub open spec fn exhausted(s: Seq<char>, i: int) -> bool {
    token_start(s, i) >= s.len()
}

/// Where the token that is read from cursor `i` ends, which is where the cursor
/// stands afterwards. An operator, a delimiter and an illegal character take one
/// character; a word and a number take their whole run and nothing more.
pub open spec fn token_end(s: Seq<char>, i: int) -> int {
    let start = token_start(s, i);
    if start >= s.len() {
        start
    } else if lexeme_kind(s[start]) is Some {
        start + 1
    } else if is_letter(s[start]) {
        word_end(s, start)
    } else if is_digit(s[start]) {
        number_end(s, start)
    } else {
        start + 1
    }
}

/// The kind of the token that is read from cursor `i`. Operators and delimiters are
/// looked at first, then letters, then digits; what is left is illegal.
pub open spec fn token_kind(s: Seq<char>, i: int) -> TokenType {
    let start = token_start(s, i);
    if start >= s.len() {
        TokenType::Eof
    } else if lexeme_kind(s[start]) is Some {
        lexeme_kind(s[start])->0
    } else if is_letter(s[start]) {
        keyword_kind(s.subrange(start, word_end(s, start)))
    } else if is_digit(s[start]) {
        TokenType::Int
    } else {
        TokenType::Illegal
    }
}

/// The token that is read from cursor `i`: its kind, and as literal the characters
/// of `s` from its start to its end, unchanged.
pub open spec fn token_at(s: Seq<char>, i: int) -> TokenView {
    TokenView {
        kind: token_kind(s, i),
        literal: s.subrange(token_start(s, i), token_end(s, i)),
    }
}

/// The token that marks the end of the input: it has no text.
pub open spec fn eof_token() -> TokenView {
    TokenView { kind: TokenType::Eof, literal: Seq::empty() }
}

/// A run stays within the text, holds only characters of its class, and is not
/// followed by one.
pub proof fn lemma_run_end(s: Seq<char>, i: int, class: spec_fn(char) -> bool)
    requires
        0 <= i <= s.len(),
    ensures
        i <= run_end(s, i, class) <= s.len(),
        forall|j: int| i <= j < run_end(s, i, class) ==> class(#[trigger] s[j]),
        run_end(s, i, class) < s.len() ==> !class(s[run_end(s, i, class)]),
    decreases s.len() - i,
{
    if i < s.len() && class(s[i]) {
        lemma_run_end(s, i + 1, class);
    }
}

/// A run ends at `e` and nowhere else, if all from `i` to `e` is of the class and
/// what stands at `e` is not.
pub proof fn lemma_run_end_is(s: Seq<char>, i: int, e: int, class: spec_fn(char) -> bool)
    requires
        0 <= i <= e <= s.len(),
        forall|j: int| i <= j < e ==> class(#[trigger] s[j]),
        e < s.len() ==> !class(s[e]),
    ensures
        run_end(s, i, class) == e,
    decreases e - i,
{
    if i < e {
        lemma_run_end_is(s, i + 1, e, class);
    }
}

/// The token read from a cursor within the text lies within the text, and it is
/// empty only at the end of the input.
pub proof fn lemma_token_bounds(s: Seq<char>, i: int)
    requires
        0 <= i <= s.len(),
    ensures
        i <= token_start(s, i) <= token_end(s, i) <= s.len(),
        exhausted(s, i) <==> token_start(s, i) == s.len(),
        exhausted(s, i) <==> token_kind(s, i) == TokenType::Eof,
        !exhausted(s, i) ==> token_start(s, i) < token_end(s, i),
        !exhausted(s, i) ==> !is_whitespace(s[token_start(s, i)]),
{
    let start = token_start(s, i);
    lemma_run_end(s, i, |c: char| is_whitespace(c));
    if start < s.len() {
        lemma_run_end(s, start, |c: char| is_letter(c));
        lemma_run_end(s, start, |c: char| is_digit(c));
        lemma_reserved_words_exact(s.subrange(start, word_end(s, start)));
    }
}

/// Where the cursor stands after `n` tokens have been read, one after the other,
/// starting from cursor `i`.
pub open spec fn cursor_after(s: Seq<char>, i: int, n: nat) -> int
    decreases n,
{
    if n == 0 {
        i
    } else {
        token_end(s, cursor_after(s, i, (n - 1) as nat))
    }
}

/// The tokens that are read from cursor `i` on, in order, up to the end of the
/// input; the end-of-input token is not among them.
pub open spec fn token_stream(s: Seq<char>, i: int) -> Seq<TokenView>
    decreases s.len() - i,
    via token_stream_decreases
{
    if 0 <= i <= s.len() && !exhausted(s, i) {
        seq![token_at(s, i)] + token_stream(s, token_end(s, i))
    } else {
        Seq::empty()
    }
}

#[via_fn]
proof fn token_stream_decreases(s: Seq<char>, i: int) {
    if 0 <= i <= s.len() && !exhausted(s, i) {
        lemma_token_bounds(s, i);
    }
}

/// Reading a token and then `n` more leaves the cursor where reading `n` tokens
/// from behind the first one leaves it.
proof fn lemma_cursor_after_first(s: Seq<char>, i: int, n: nat)
    ensures
        cursor_after(s, i, n + 1) == cursor_after(s, token_end(s, i), n),
    decreases n,
{
    assert(cursor_after(s, i, n + 1) == token_end(s, cursor_after(s, i, n)));
    if n == 0 {
        assert(cursor_after(s, i, 0) == i);
        assert(cursor_after(s, token_end(s, i), 0) == token_end(s, i));
    } else {
        lemma_cursor_after_first(s, i, (n - 1) as nat);
    }
}

/// The stream lists the tokens in the order in which they are read. Its token
/// number `k` is the one that is read after `k` others; and once as many tokens
/// have been read as the stream holds, every further one is the end-of-input token.
pub proof fn lemma_token_stream_order(s: Seq<char>, i: int, k: nat)
    requires
        0 <= i <= s.len(),
    ensures
        0 <= cursor_after(s, i, k) <= s.len(),
        k < token_stream(s, i).len() ==> token_stream(s, i)[k as int] == token_at(
            s,
            cursor_after(s, i, k),
        ),
        k >= token_stream(s, i).len() ==> token_at(s, cursor_after(s, i, k)) == eof_token(),
    decreases k,
{
    lemma_token_bounds(s, i);
    if exhausted(s, i) {
        lemma_end_of_input_is_absorbing(s, i, k);
    } else if k > 0 {
        let behind = token_end(s, i);
        lemma_cursor_after_first(s, i, (k - 1) as nat);
        lemma_token_stream_order(s, behind, (k - 1) as nat);
    }
}

/// The literals of `tokens`, written one after the other.
pub open spec fn literal_text(tokens: Seq<TokenView>) -> Seq<char> {
    tokens.map_values(|t: TokenView| t.literal).flatten()
}

/// The text `s` with its blanks taken out.
pub open spec fn without_whitespace(s: Seq<char>) -> Seq<char> {
    s.filter(|c: char| !is_whitespace(c))
}

/// A text of blanks alone holds no token: the first token read from it is the
/// end-of-input token.
pub proof fn lemma_blank_input(s: Seq<char>)
    requires
        forall|j: int| 0 <= j < s.len() ==> is_whitespace(#[trigger] s[j]),
    ensures
        exhausted(s, 0),
        token_at(s, 0) == eof_token(),
        token_end(s, 0) == s.len(),
{
    lemma_run_end_is(s, 0, s.len() as int, |c: char| is_whitespace(c));
    assert(s.subrange(s.len() as int, s.len() as int) == Seq::<char>::empty());
}

/// The end of the input is absorbing. Once the token read from a cursor is the
/// end-of-input token, so is every token read after it, however many are read,
/// and the cursor rests at the end of the text.
pub proof fn lemma_end_of_input_is_absorbing(s: Seq<char>, i: int, n: nat)
    requires
        0 <= i <= s.len(),
        exhausted(s, i),
    ensures
        token_at(s, cursor_after(s, i, n)) == eof_token(),
        exhausted(s, cursor_after(s, i, n)),
        n > 0 ==> cursor_after(s, i, n) == s.len(),
        i == s.len() ==> cursor_after(s, i, n) == i,
    decreases n,
{
    let end = s.len() as int;
    assert(s.subrange(end, end) == Seq::<char>::empty());
    lemma_token_bounds(s, i);
    if n > 0 {
        lemma_end_of_input_is_absorbing(s, i, (n - 1) as nat);
        let before = cursor_after(s, i, (n - 1) as nat);
        assert(cursor_after(s, i, n) == token_end(s, before));
        if n > 1 {
            assert(before == end);
        }
        lemma_token_bounds(s, before);
        assert(token_end(s, before) == end);
        lemma_token_bounds(s, end);
    }
}

/// The empty text yields the end-of-input token at once and ever after.
pub proof fn lemma_empty_input(s: Seq<char>, n: nat)
    requires
        s.len() == 0,
    ensures
        token_at(s, cursor_after(s, 0, n)) == eof_token(),
        cursor_after(s, 0, n) == 0,
{
    lemma_end_of_input_is_absorbing(s, 0, n);
    if n == 0 {
    } else {
        assert(cursor_after(s, 0, n) == s.len());
    }
}

/// A text that is one operator or delimiter yields one token of that
/// character's kind, whose literal is the text, and then the end of the input.
pub proof fn lemma_single_lexeme(s: Seq<char>)
    requires
        s.len() == 1,
        lexeme_kind(s[0]) is Some,
    ensures
        token_at(s, 0) == (TokenView { kind: lexeme_kind(s[0])->0, literal: s }),
        token_end(s, 0) == 1,
        token_at(s, 1) == eof_token(),
{
    assert(s.subrange(0, 1) == s);
    assert(s.subrange(1, 1) == Seq::<char>::empty());
}

/// A text that is one character which is neither blank, nor an operator or
/// delimiter, nor a letter, nor a digit yields one illegal token, whose literal
/// is that character, and then the end of the input.
pub proof fn lemma_single_illegal(s: Seq<char>)
    requires
        s.len() == 1,
        !is_whitespace(s[0]),
        lexeme_kind(s[0]) is None,
        !is_letter(s[0]),
        !is_digit(s[0]),
    ensures
        token_at(s, 0) == (TokenView { kind: TokenType::Illegal, literal: s }),
        token_end(s, 0) == 1,
        token_at(s, 1) == eof_token(),
{
    assert(s.subrange(0, 1) == s);
    assert(s.subrange(1, 1) == Seq::<char>::empty());
}

/// No character gets lost between two tokens: a character that starts no token
/// of the language is handed out as an illegal token of its own, and the scanner
/// goes on behind it.
pub proof fn lemma_illegal_character(s: Seq<char>, i: int)
    requires
        0 <= i <= s.len(),
        !exhausted(s, i),
        lexeme_kind(s[token_start(s, i)]) is None,
        !is_letter(s[token_start(s, i)]),
        !is_digit(s[token_start(s, i)]),
    ensures
        token_at(s, i) == (TokenView {
            kind: TokenType::Illegal,
            literal: seq![s[token_start(s, i)]],
        }),
        token_end(s, i) == token_start(s, i) + 1,
{
    let start = token_start(s, i);
    lemma_token_bounds(s, i);
    assert(s.subrange(start, start + 1) == seq![s[start]]);
}

/// The literal of a token holds no blank.
pub proof fn lemma_literal_has_no_whitespace(s: Seq<char>, i: int)
    requires
        0 <= i <= s.len(),
    ensures
        forall|j: int|
            0 <= j < token_at(s, i).literal.len() ==> !is_whitespace(
                #[trigger] token_at(s, i).literal[j],
            ),
{
    let start = token_start(s, i);
    lemma_token_bounds(s, i);
    if start < s.len() {
        lemma_run_end(s, start, |c: char| is_letter(c));
        lemma_run_end(s, start, |c: char| is_digit(c));
    }
}

/// Filtering keeps a text whose every character passes.
proof fn lemma_filter_keeps_all(s: Seq<char>, pred: spec_fn(char) -> bool)
    requires
        forall|j: int| 0 <= j < s.len() ==> pred(#[trigger] s[j]),
    ensures
        s.filter(pred) == s,
    decreases s.len(),
{
    reveal(Seq::filter);
    if s.len() > 0 {
        lemma_filter_keeps_all(s.drop_last(), pred);
        assert(s.drop_last().push(s.last()) == s);
    }
}

/// Filtering empties a text of which no character passes.
proof fn lemma_filter_drops_all(s: Seq<char>, pred: spec_fn(char) -> bool)
    requires
        forall|j: int| 0 <= j < s.len() ==> !pred(#[trigger] s[j]),
    ensures
        s.filter(pred) == Seq::<char>::empty(),
    decreases s.len(),
{
    reveal(Seq::filter);
    if s.len() > 0 {
        lemma_filter_drops_all(s.drop_last(), pred);
    }
}

/// The literal text of a stream is the literal of its first token followed by
/// the literal text of the rest.
proof fn lemma_literal_text_unfold(first: TokenView, rest: Seq<TokenView>)
    ensures
        literal_text(seq![first] + rest) == first.literal + literal_text(rest),
{
    let literal = |t: TokenView| t.literal;
    let all = (seq![first] + rest).map_values(literal);
    assert(all.first() == first.literal);
    assert(all.drop_first() == rest.map_values(literal));
}

/// From any cursor on, the literals of the tokens that are read up to the end of
/// the input spell what is left of the text, blanks apart.
pub proof fn lemma_round_trip_from(s: Seq<char>, i: int)
    requires
        0 <= i <= s.len(),
    ensures
        literal_text(token_stream(s, i)) == without_whitespace(s.subrange(i, s.len() as int)),
    decreases s.len() - i,
{
    let visible = |c: char| !is_whitespace(c);
    let end = s.len() as int;
    let start = token_start(s, i);
    lemma_token_bounds(s, i);
    lemma_run_end(s, i, |c: char| is_whitespace(c));
    let blanks = s.subrange(i, start);
    lemma_filter_drops_all(blanks, visible);
    if exhausted(s, i) {
        assert(s.subrange(i, end) == blanks);
    } else {
        let stop = token_end(s, i);
        let literal = s.subrange(start, stop);
        let rest = s.subrange(stop, end);
        assert forall|j: int| 0 <= j < literal.len() implies visible(#[trigger] literal[j]) by {
            lemma_literal_has_no_whitespace(s, i);
            assert(literal[j] == token_at(s, i).literal[j]);
        }
        lemma_filter_keeps_all(literal, visible);
        lemma_round_trip_from(s, stop);
        lemma_literal_text_unfold(token_at(s, i), token_stream(s, stop));
        assert(s.subrange(i, end) == blanks + literal + rest);
        Seq::filter_distributes_over_add(blanks + literal, rest, visible);
        Seq::filter_distributes_over_add(blanks, literal, visible);
        assert(Seq::<char>::empty() + literal == literal);
    }
}

/// Scanning loses nothing and invents nothing. The literals of all the tokens of
/// a text, in order, spell the text without its blanks; and as no literal holds
/// a blank, taking the blanks out of the literals changes nothing.
pub proof fn lemma_round_trip(s: Seq<char>)
    ensures
        literal_text(token_stream(s, 0)) == without_whitespace(s),
        without_whitespace(literal_text(token_stream(s, 0))) == without_whitespace(s),
{
    lemma_round_trip_from(s, 0);
    assert(s.subrange(0, s.len() as int) == s);
    let visible = |c: char| !is_whitespace(c);
    let kept = s.filter(visible);
    assert forall|j: int| 0 <= j < kept.len() implies visible(#[trigger] kept[j]) by {
        s.lemma_filter_pred(visible, j);
    }
    lemma_filter_keeps_all(kept, visible);
}

} // verus!
