use vstd::prelude::*;
use crate::text::{alphabetic, alphanumeric};
use crate::token::{TokenView, keyword_of};
use crate::token_type::TokenType;

verus! {

/// The classes of characters over which a lexeme runs.
#[derive(Clone, Copy, PartialEq, Eq, Structural)]
pub enum CharClass {
    Digit,
    AlphaNumeric,
    NotQuote,
    NotNewline,
}

/// An ASCII decimal digit.
pub open spec fn is_digit(c: char) -> bool {
    '0' <= c && c <= '9'
}

/// Whether character `c` belongs to class `k`.
pub open spec fn in_class(c: char, k: CharClass) -> bool {
    match k {
        CharClass::Digit => is_digit(c),
        CharClass::AlphaNumeric => alphanumeric(c),
        CharClass::NotQuote => c != '"',
        CharClass::NotNewline => c != '\n',
    }
}

/// How many characters of class `k` stand in a row from position `i` on.
pub open spec fn run(s: Seq<char>, i: int, k: CharClass) -> nat
    decreases s.len() - i,
{
    if 0 <= i < s.len() && in_class(s[i], k) {
        1 + run(s, i + 1, k)
    } else {
        0
    }
}

/// The number of line breaks in a text.
pub open spec fn newlines(t: Seq<char>) -> nat
    decreases t.len(),
{
    if t.len() == 0 {
        0
    } else {
        newlines(t.drop_last()) + if t.last() == '\n' {
            1nat
        } else {
            0nat
        }
    }
}

/// A text has no more line breaks than characters.
pub proof fn lemma_newlines_bound(t: Seq<char>)
    ensures
        newlines(t) <= t.len(),
    decreases t.len(),
{
    if t.len() > 0 {
        lemma_newlines_bound(t.drop_last());
    }
}

/// Moving one character on adds one line break, where that character is one.
pub proof fn lemma_newlines_step(s: Seq<char>, k: int)
    requires
        0 <= k < s.len(),
    ensures
        newlines(s.take(k + 1)) == newlines(s.take(k)) + if s[k] == '\n' {
            1nat
        } else {
            0nat
        },
        newlines(s.take(k + 1)) <= k + 1,
{
    assert(s.take(k + 1).drop_last() =~= s.take(k));
    lemma_newlines_bound(s.take(k + 1));
}

/// The line, counted from 1, on which position `i` lies.
pub open spec fn line_at(s: Seq<char>, i: int) -> nat {
    1 + newlines(s.take(i))
}

/// Whether the character after position `i` is `c`.
pub open spec fn followed_by(s: Seq<char>, i: int, c: char) -> bool {
    i + 1 < s.len() && s[i + 1] == c
}

/// The characters that stand for a token by themselves.
pub open spec fn single_kind(c: char) -> Option<TokenType> {
    if c == '(' {
        Some(TokenType::LeftParen)
    } else if c == ')' {
        Some(TokenType::RightParen)
    } else if c == '{' {
        Some(TokenType::LeftBrace)
    } else if c == '}' {
        Some(TokenType::RightBrace)
    } else if c == ',' {
        Some(TokenType::Comma)
    } else if c == '.' {
        Some(TokenType::Dot)
    } else if c == '-' {
        Some(TokenType::Minus)
    } else if c == '+' {
        Some(TokenType::Plus)
    } else if c == ';' {
        Some(TokenType::Semicolon)
    } else if c == '*' {
        Some(TokenType::Star)
    } else {
        None
    }
}

/// The operators that an `=` may extend: their category alone, and with `=`.
pub open spec fn operator_kind(c: char, with_equal: bool) -> Option<TokenType> {
    if c == '!' {
        Some(if with_equal { TokenType::BangEqual } else { TokenType::Bang })
    } else if c == '=' {
        Some(if with_equal { TokenType::EqualEqual } else { TokenType::Equal })
    } else if c == '<' {
        Some(if with_equal { TokenType::LessEqual } else { TokenType::Less })
    } else if c == '>' {
        Some(if with_equal { TokenType::GreaterEqual } else { TokenType::Greater })
    } else {
        None
    }
}

/// Characters that separate lexemes and yield nothing.
pub open spec fn is_blank(c: char) -> bool {
    c == ' ' || c == '\t' || c == '\r' || c == '\n'
}

/// Whether a string literal that opens at `i` has its closing quote.
pub open spec fn string_closed(s: Seq<char>, i: int) -> bool {
    i + 1 + run(s, i + 1, CharClass::NotQuote) < s.len()
}

/// Where a number that begins at `i` ends: its digits, then a fraction only
/// where a digit follows the dot.
pub open spec fn number_end(s: Seq<char>, i: int) -> int {
    let e = i + 1 + run(s, i + 1, CharClass::Digit);
    if e + 1 < s.len() && s[e] == '.' && is_digit(s[e + 1]) {
        e + 1 + run(s, e + 1, CharClass::Digit)
    } else {
        e
    }
}

/// Where the lexeme that begins at `i` ends (exclusive). A comment runs up to
/// the next line break, and an unterminated string to the end of the text.
pub open spec fn lexeme_end(s: Seq<char>, i: int) -> int {
    let c = s[i];
    if operator_kind(c, false) is Some && followed_by(s, i, '=') {
        i + 2
    } else if c == '/' && followed_by(s, i, '/') {
        i + 2 + run(s, i + 2, CharClass::NotNewline)
    } else if c == '"' {
        if string_closed(s, i) {
            i + 2 + run(s, i + 1, CharClass::NotQuote)
        } else {
            s.len() as int
        }
    } else if single_kind(c) is Some || operator_kind(c, false) is Some || c == '/' || is_blank(c) {
        i + 1
    } else if is_digit(c) {
        number_end(s, i)
    } else if alphabetic(c) {
        i + 1 + run(s, i + 1, CharClass::AlphaNumeric)
    } else {
        i + 1
    }
}

/// The category of the token that the lexeme at `i` yields, if it yields one.
pub open spec fn kind_at(s: Seq<char>, i: int) -> Option<TokenType> {
    let c = s[i];
    if single_kind(c) is Some {
        single_kind(c)
    } else if operator_kind(c, false) is Some {
        operator_kind(c, followed_by(s, i, '='))
    } else if c == '/' {
        if followed_by(s, i, '/') {
            None
        } else {
            Some(TokenType::Slash)
        }
    } else if c == '"' {
        if string_closed(s, i) {
            Some(TokenType::String)
        } else {
            None
        }
    } else if is_blank(c) {
        None
    } else if is_digit(c) {
        Some(TokenType::Number)
    } else if alphabetic(c) {
        match keyword_of(s.subrange(i, lexeme_end(s, i))) {
            Some(k) => Some(k),
            None => Some(TokenType::Identifier),
        }
    } else {
        None
    }
}

/// The literal of the token at `i`: a string's text between its quotes, or
/// a number's digits.
pub open spec fn literal_at(s: Seq<char>, i: int) -> Option<Seq<char>> {
    if s[i] == '"' {
        Some(s.subrange(i + 1, lexeme_end(s, i) - 1))
    } else if is_digit(s[i]) {
        Some(s.subrange(i, lexeme_end(s, i)))
    } else {
        None
    }
}

/// Whether the character at `i` begins no lexeme at all.
pub open spec fn unexpected(c: char) -> bool {
    single_kind(c) is None && operator_kind(c, false) is None && c != '/' && c != '"'
        && !is_blank(c) && !is_digit(c) && !alphabetic(c)
}

/// The tokens that the lexeme at `i` yields: one, or none.
pub open spec fn emitted(s: Seq<char>, i: int) -> Seq<TokenView> {
    match kind_at(s, i) {
        Some(k) => seq![
            TokenView {
                token_type: k,
                lexeme: s.subrange(i, lexeme_end(s, i)),
                literal: literal_at(s, i),
                line: line_at(s, i),
            },
        ],
        None => seq![],
    }
}

/// The diagnostics that the lexeme at `i` yields: one, or none.
pub open spec fn reported(s: Seq<char>, i: int) -> Seq<(nat, Seq<char>)> {
    if s[i] == '"' && !string_closed(s, i) {
        seq![(line_at(s, i), "Unterminated string"@)]
    } else if unexpected(s[i]) {
        seq![(line_at(s, i), "Unexpected Character"@)]
    } else {
        seq![]
    }
}

/// The end-of-input token of a text.
pub open spec fn eof_token(s: Seq<char>) -> TokenView {
    TokenView { token_type: TokenType::Eof, lexeme: seq![], literal: None, line: line_at(s, s.len() as int) }
}

/// A run from `i` on stays within the text.
pub proof fn lemma_run_bound(s: Seq<char>, i: int, k: CharClass)
    requires
        0 <= i <= s.len(),
    ensures
        i + run(s, i, k) <= s.len(),
    decreases s.len() - i,
{
    if i < s.len() && in_class(s[i], k) {
        lemma_run_bound(s, i + 1, k);
    }
}

/// Every lexeme holds at least one character and ends within the text.
pub proof fn lemma_lexeme_end_bounds(s: Seq<char>, i: int)
    requires
        0 <= i < s.len(),
    ensures
        i < lexeme_end(s, i) <= s.len(),
{
    lemma_run_bound(s, i + 1, CharClass::NotQuote);
    lemma_run_bound(s, i + 1, CharClass::Digit);
    lemma_run_bound(s, i + 1, CharClass::AlphaNumeric);
    if i + 2 <= s.len() {
        lemma_run_bound(s, i + 2, CharClass::NotNewline);
    }
    let e = i + 1 + run(s, i + 1, CharClass::Digit);
    if e + 1 < s.len() {
        lemma_run_bound(s, e + 1, CharClass::Digit);
    }
}

#[via_fn]
proof fn scan_from_decreases(s: Seq<char>, i: int) {
    if 0 <= i < s.len() {
        lemma_lexeme_end_bounds(s, i);
    }
}

#[via_fn]
proof fn diagnostics_from_decreases(s: Seq<char>, i: int) {
    if 0 <= i < s.len() {
        lemma_lexeme_end_bounds(s, i);
    }
}

/// The tokens of the text from position `i` on.
pub open spec fn scan_from(s: Seq<char>, i: int) -> Seq<TokenView>
    decreases s.len() - i,
    via scan_from_decreases
{
    if 0 <= i < s.len() {
        emitted(s, i) + scan_from(s, lexeme_end(s, i))
    } else {
        seq![eof_token(s)]
    }
}

#[via_fn]
proof fn starts_from_decreases(s: Seq<char>, i: int) {
    if 0 <= i < s.len() {
        lemma_lexeme_end_bounds(s, i);
    }
}

/// Where the tokens of the text from position `i` on begin, token by token:
/// the `Eof` token begins at the end of the text.
pub open spec fn starts_from(s: Seq<char>, i: int) -> Seq<int>
    decreases s.len() - i,
    via starts_from_decreases
{
    if 0 <= i < s.len() {
        (if kind_at(s, i) is Some {
            seq![i]
        } else {
            seq![]
        }) + starts_from(s, lexeme_end(s, i))
    } else {
        seq![s.len() as int]
    }
}

/// Where the tokens of a text begin, token by token.
pub open spec fn token_starts(s: Seq<char>) -> Seq<int> {
    starts_from(s, 0)
}

/// The diagnostics of the text from position `i` on.
pub open spec fn diagnostics_from(s: Seq<char>, i: int) -> Seq<(nat, Seq<char>)>
    decreases s.len() - i,
    via diagnostics_from_decreases
{
    if 0 <= i < s.len() {
        reported(s, i) + diagnostics_from(s, lexeme_end(s, i))
    } else {
        seq![]
    }
}

/// The tokens of a text.
pub open spec fn scan(s: Seq<char>) -> Seq<TokenView> {
    scan_from(s, 0)
}

/// The diagnostics of a text.
pub open spec fn diagnostics(s: Seq<char>) -> Seq<(nat, Seq<char>)> {
    diagnostics_from(s, 0)
}

} // verus!
