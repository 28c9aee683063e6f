use vstd::prelude::*;
use crate::lexical::{
    CharClass, diagnostics, diagnostics_from, emitted, in_class, lemma_lexeme_end_bounds,
    lemma_newlines_step, lexeme_end, line_at, reported, run, scan, scan_from, string_closed,
    is_digit, number_end, eof_token, newlines, token_starts,
};
use crate::laws::{lemma_eof_last_and_only, lemma_token_lines};
use crate::lox_error::{LoxError, errors_view};
use crate::text::{chars_of, is_alphabetic, is_alphanumeric, string_of};
use crate::token::{Token, TokenView, keyword, keyword_of, text_view, tokens_view};
use crate::token_type::TokenType;

verus! {

/// Scans a source text into tokens, one lexeme at a time.
pub struct Scanner {
    start: usize,
    current: usize,
    line: usize,
    start_line: usize,
    source: String,
    tokens: Vec<Token>,
    lexems: Vec<char>,
    errors: Vec<LoxError>,
}

/// Whether character `c` belongs to class `k`.
fn in_class_exec(c: char, k: CharClass) -> (r: bool)
    ensures
        r == in_class(c, k),
{
    match k {
        CharClass::Digit => '0' <= c && c <= '9',
        CharClass::AlphaNumeric => is_alphanumeric(c),
        CharClass::NotQuote => c != '"',
        CharClass::NotNewline => c != '\n',
    }
}

impl Scanner {
    /// The text this scanner reads.
    pub closed spec fn text(&self) -> Seq<char> {
        self.source@
    }

    /// The tokens produced so far.
    pub closed spec fn produced(&self) -> Seq<Token> {
        self.tokens@
    }

    /// The diagnostics reported so far.
    pub closed spec fn reported_errors(&self) -> Seq<LoxError> {
        self.errors@
    }

    /// Where the lexeme being scanned begins.
    pub closed spec fn lexeme_start(&self) -> nat {
        self.start as nat
    }

    /// The position of the next unread character.
    pub closed spec fn cursor(&self) -> nat {
        self.current as nat
    }

    /// The line on which the next unread character lies.
    pub closed spec fn line_counter(&self) -> nat {
        self.line as nat
    }

    /// The characters of the text, as far as the scan has split them out.
    pub closed spec fn characters(&self) -> Seq<char> {
        self.lexems@
    }

    /// The text is short enough for the scanner's counters.
    pub closed spec fn wf(&self) -> bool {
        self.source@.len() < usize::MAX
    }

    /// The cursors lie within the text, and the line counters give the lines
    /// on which they stand.
    spec fn scanning(&self) -> bool {
        &&& self.lexems@ == self.source@
        &&& self.source@.len() < usize::MAX
        &&& self.start <= self.current <= self.lexems@.len()
        &&& self.line == line_at(self.lexems@, self.current as int)
        &&& self.start_line == line_at(self.lexems@, self.start as int)
    }

    /// Only the cursor and the line counter differ between the two.
    spec fn moved_from(&self, prev: &Scanner) -> bool {
        &&& self.source == prev.source
        &&& self.lexems == prev.lexems
        &&& self.tokens == prev.tokens
        &&& self.errors == prev.errors
        &&& self.start == prev.start
        &&& self.start_line == prev.start_line
    }

    /// A scanner for `source` that has scanned nothing yet.
    pub fn new(source: String) -> (r: Scanner)
        requires
            source@.len() < usize::MAX,
        ensures
            r.wf(),
            r.text() == source@,
            r.produced().len() == 0,
            r.reported_errors().len() == 0,
            r.lexeme_start() == 0,
            r.cursor() == 0,
            r.line_counter() == 1,
            r.characters().len() == 0,
    {
        Scanner {
            start: 0,
            current: 0,
            line: 1,
            start_line: 1,
            source,
            tokens: Vec::new(),
            lexems: Vec::new(),
            errors: Vec::new(),
        }
    }

    /// The diagnostics of the last scan.
    pub fn errors(&self) -> (r: &Vec<LoxError>)
        ensures
            r@ == self.reported_errors(),
    {
        &self.errors
    }

    fn is_end_file(&self) -> (r: bool)
        requires
            self.scanning(),
        ensures
            r == (self.current >= self.lexems@.len()),
    {
        self.current >= self.lexems.len()
    }

    /// The next unread character, or `'\0'` at the end.
    fn peek(&self) -> (r: char)
        requires
            self.scanning(),
        ensures
            r == if self.current < self.lexems@.len() {
                self.lexems@[self.current as int]
            } else {
                '\0'
            },
    {
        if self.is_end_file() {
            return '\0';
        }
        self.lexems[self.current]
    }

    /// The character after the next one, or `'\0'` past the end.
    fn peek_next(&self) -> (r: char)
        requires
            self.scanning(),
        ensures
            r == if self.current + 1 < self.lexems@.len() {
                self.lexems@[self.current + 1]
            } else {
                '\0'
            },
    {
        if self.current + 1 >= self.lexems.len() {
            return '\0';
        }
        self.lexems[self.current + 1]
    }

    /// Consumes one character, counting the line it ends.
    fn advance_pointer(&mut self) -> (c: char)
        requires
            old(self).scanning(),
            old(self).current < old(self).lexems@.len(),
        ensures
            final(self).scanning(),
            final(self).moved_from(old(self)),
            final(self).current == old(self).current + 1,
            c == old(self).lexems@[old(self).current as int],
    {
        let c = self.lexems[self.current];
        proof {
            lemma_newlines_step(self.lexems@, self.current as int);
        }
        if c == '\n' {
            self.line = self.line + 1;
        }
        self.current = self.current + 1;
        c
    }

    /// Consumes the next character where it is `expected`.
    fn is_matching(&mut self, expected: char) -> (r: bool)
        requires
            old(self).scanning(),
        ensures
            final(self).scanning(),
            final(self).moved_from(old(self)),
            r == (old(self).current < old(self).lexems@.len() && old(self).lexems@[old(
                self,
            ).current as int] == expected),
            final(self).current == old(self).current + if r {
                1int
            } else {
                0int
            },
    {
        if self.is_end_file() {
            return false;
        }
        if self.lexems[self.current] == expected {
            self.advance_pointer();
            true
        } else {
            false
        }
    }

    /// Consumes the characters of class `k` that follow.
    fn advance_while(&mut self, k: CharClass)
        requires
            old(self).scanning(),
        ensures
            final(self).scanning(),
            final(self).moved_from(old(self)),
            final(self).current == old(self).current + run(
                old(self).lexems@,
                old(self).current as int,
                k,
            ),
    {
        let ghost s = self.lexems@;
        let ghost i0 = self.current as int;
        while !self.is_end_file() && in_class_exec(self.lexems[self.current], k)
            invariant
                self.scanning(),
                self.moved_from(old(self)),
                s == self.lexems@,
                i0 <= self.current,
                i0 + run(s, i0, k) == self.current + run(s, self.current as int, k),
            decreases s.len() - self.current,
        {
            self.advance_pointer();
        }
    }

    /// Appends a token of category `token_type` for the current lexeme.
    fn add_token(&mut self, token_type: TokenType)
        requires
            old(self).scanning(),
        ensures
            final(self).appended(old(self), token_type, None),
            final(self).current == old(self).current,
    {
        self.add_token_object(token_type, None);
    }

    /// Appends a token for the current lexeme, with a literal.
    fn add_token_object(&mut self, token_type: TokenType, object: Option<String>)
        requires
            old(self).scanning(),
        ensures
            final(self).appended(old(self), token_type, text_view(object)),
            final(self).current == old(self).current,
    {
        let text = string_of(&self.lexems.as_slice()[self.start..self.current]);
        let token = Token::new(text, self.start_line, token_type, object);
        self.tokens.push(token);
        proof {
            assert(tokens_view(self.tokens@) =~= tokens_view(old(self).tokens@).push(token@));
        }
    }

    /// One token, for the lexeme between the two cursors, was appended, and
    /// only the cursor moved besides.
    spec fn appended(&self, prev: &Scanner, t: TokenType, literal: Option<Seq<char>>) -> bool {
        &&& self.scanning()
        &&& self.source == prev.source
        &&& self.lexems == prev.lexems
        &&& self.errors == prev.errors
        &&& self.start == prev.start
        &&& self.start_line == prev.start_line
        &&& tokens_view(self.tokens@) == tokens_view(prev.tokens@).push(
            TokenView {
                token_type: t,
                lexeme: self.lexems@.subrange(self.start as int, self.current as int),
                literal,
                line: self.start_line as nat,
            },
        )
    }

    /// Reads the rest of a string literal whose opening quote was consumed,
    /// and returns its text between the quotes.
    fn string(&mut self) -> (r: Result<String, String>)
        requires
            old(self).scanning(),
            old(self).current == old(self).start + 1,
            old(self).lexems@[old(self).start as int] == '"',
        ensures
            final(self).scanning(),
            final(self).moved_from(old(self)),
            final(self).current == lexeme_end(old(self).lexems@, old(self).start as int),
            match r {
                Ok(v) => string_closed(old(self).lexems@, old(self).start as int) && v@
                    == old(self).lexems@.subrange(
                    old(self).start + 1,
                    final(self).current - 1,
                ),
                Err(m) => !string_closed(old(self).lexems@, old(self).start as int) && m@
                    == "Unterminated string"@,
            },
    {
        self.advance_while(CharClass::NotQuote);
        if self.is_end_file() {
            return Err(String::from_str("Unterminated string"));
        }
        self.advance_pointer();
        let value = string_of(&self.lexems.as_slice()[self.start + 1..self.current - 1]);
        Ok(value)
    }

    /// Reads the rest of a number whose first digit was consumed, and appends
    /// its token.
    fn number(&mut self)
        requires
            old(self).scanning(),
            old(self).current == old(self).start + 1,
            is_digit(old(self).lexems@[old(self).start as int]),
        ensures
            final(self).current == number_end(old(self).lexems@, old(self).start as int),
            final(self).appended(
                old(self),
                TokenType::Number,
                Some(old(self).lexems@.subrange(old(self).start as int, final(self).current as int)),
            ),
    {
        self.advance_while(CharClass::Digit);
        if self.peek() == '.' && '0' <= self.peek_next() && self.peek_next() <= '9' {
            self.advance_pointer();
            self.advance_while(CharClass::Digit);
        }
        let text = string_of(&self.lexems.as_slice()[self.start..self.current]);
        self.add_token_object(TokenType::Number, Some(text));
    }

    /// Reads the rest of an identifier whose first letter was consumed, and
    /// appends its token: a reserved word's category, or `Identifier`.
    fn identifier(&mut self)
        requires
            old(self).scanning(),
            old(self).current == old(self).start + 1,
        ensures
            final(self).current == old(self).current + run(
                old(self).lexems@,
                old(self).current as int,
                CharClass::AlphaNumeric,
            ),
            final(self).appended(
                old(self),
                match keyword_of(
                    old(self).lexems@.subrange(old(self).start as int, final(self).current as int),
                ) {
                    Some(k) => k,
                    None => TokenType::Identifier,
                },
                None,
            ),
    {
        self.advance_while(CharClass::AlphaNumeric);
        let token_type = match keyword(&self.lexems.as_slice()[self.start..self.current]) {
            Some(k) => k,
            None => TokenType::Identifier,
        };
        self.add_token(token_type);
    }

    /// Scans the lexeme that begins at the cursor: appends its token, if it
    /// yields one, or returns its diagnostic, if it yields one.
    fn scan_token(&mut self) -> (r: Result<(), LoxError>)
        requires
            old(self).scanning(),
            old(self).start == old(self).current,
            old(self).current < old(self).lexems@.len(),
        ensures
            final(self).scanning(),
            final(self).source == old(self).source,
            final(self).lexems == old(self).lexems,
            final(self).errors == old(self).errors,
            final(self).start == old(self).start,
            final(self).start_line == old(self).start_line,
            final(self).current == lexeme_end(old(self).lexems@, old(self).current as int),
            tokens_view(final(self).tokens@) == tokens_view(old(self).tokens@) + emitted(
                old(self).lexems@,
                old(self).current as int,
            ),
            match r {
                Ok(_) => reported(old(self).lexems@, old(self).current as int).len() == 0,
                Err(e) => reported(old(self).lexems@, old(self).current as int) == seq![e@],
            },
    {
        let ghost s = self.lexems@;
        let ghost i = self.current as int;
        let ghost before = tokens_view(self.tokens@);
        let l = self.advance_pointer();
        match l {
            '/' => {
                if self.is_matching('/') {
                    self.advance_while(CharClass::NotNewline);
                } else {
                    self.add_token(TokenType::Slash);
                }
            },
            '(' => self.add_token(TokenType::LeftParen),
            ')' => self.add_token(TokenType::RightParen),
            '{' => self.add_token(TokenType::LeftBrace),
            '}' => self.add_token(TokenType::RightBrace),
            ';' => self.add_token(TokenType::Semicolon),
            ',' => self.add_token(TokenType::Comma),
            '.' => self.add_token(TokenType::Dot),
            '-' => self.add_token(TokenType::Minus),
            '+' => self.add_token(TokenType::Plus),
            '*' => self.add_token(TokenType::Star),
            '!' => {
                if self.is_matching('=') {
                    self.add_token(TokenType::BangEqual);
                } else {
                    self.add_token(TokenType::Bang);
                }
            },
            '=' => {
                if self.is_matching('=') {
                    self.add_token(TokenType::EqualEqual);
                } else {
                    self.add_token(TokenType::Equal);
                }
            },
            '<' => {
                if self.is_matching('=') {
                    self.add_token(TokenType::LessEqual);
                } else {
                    self.add_token(TokenType::Less);
                }
            },
            '>' => {
                if self.is_matching('=') {
                    self.add_token(TokenType::GreaterEqual);
                } else {
                    self.add_token(TokenType::Greater);
                }
            },
            '"' => {
                match self.string() {
                    Ok(value) => self.add_token_object(TokenType::String, Some(value)),
                    Err(message) => {
                        assert(emitted(s, i) =~= seq![]);
                        assert(before + emitted(s, i) =~= before);
                        return Err(LoxError::error(self.start_line, message));
                    },
                }
            },
            '\t' | '\r' | ' ' | '\n' => {},
            _ => {
                if '0' <= l && l <= '9' {
                    self.number();
                } else if is_alphabetic(l) {
                    self.identifier();
                } else {
                    assert(before + emitted(s, i) =~= before);
                    return Err(LoxError::error(self.start_line, String::from_str("Unexpected Character")));
                }
            },
        }
        assert(tokens_view(self.tokens@) =~= before + emitted(s, i));
        Ok(())
    }

    /// Scans the whole text from its start and returns its tokens, the last
    /// of them `Eof`. The diagnostics of the scan are then in `errors`. A
    /// second call scans again and gives the same result.
    pub fn scan_tokens(&mut self) -> (r: &Vec<Token>)
        requires
            old(self).wf(),
        ensures
            final(self).wf(),
            final(self).text() == old(self).text(),
            r@ == final(self).produced(),
            tokens_view(r@) == scan(old(self).text()),
            errors_view(final(self).reported_errors()) == diagnostics(old(self).text()),
            r@.len() >= 1,
            r@.last().token_type == TokenType::Eof,
            forall|k: int| 0 <= k < r@.len() - 1 ==> r@[k].token_type != TokenType::Eof,
            token_starts(old(self).text()).len() == r@.len(),
            forall|k: int|
                0 <= k < r@.len() ==> #[trigger] r@[k].line == newlines(
                    old(self).text().take(token_starts(old(self).text())[k]),
                ) + 1,
    {
        self.lexems = chars_of(&self.source);
        self.tokens = Vec::new();
        self.errors = Vec::new();
        self.start = 0;
        self.current = 0;
        self.line = 1;
        self.start_line = 1;
        let ghost s = self.source@;
        proof {
            assert(s.take(0) =~= Seq::<char>::empty());
            assert(tokens_view(self.tokens@) =~= Seq::<TokenView>::empty());
            assert(errors_view(self.errors@) =~= Seq::<(nat, Seq<char>)>::empty());
            assert(Seq::<TokenView>::empty() + scan_from(s, 0) =~= scan(s));
            assert(Seq::<(nat, Seq<char>)>::empty() + diagnostics_from(s, 0) =~= diagnostics(s));
        }
        while !self.is_end_file()
            invariant
                self.scanning(),
                self.source@ == s,
                tokens_view(self.tokens@) + scan_from(s, self.current as int) == scan(s),
                errors_view(self.errors@) + diagnostics_from(s, self.current as int) == diagnostics(s),
            decreases s.len() - self.current,
        {
            let ghost i = self.current as int;
            let ghost toks = tokens_view(self.tokens@);
            let ghost errs = errors_view(self.errors@);
            self.start = self.current;
            self.start_line = self.line;
            proof {
                lemma_lexeme_end_bounds(s, i);
            }
            match self.scan_token() {
                Ok(_) => {
                    assert(errors_view(self.errors@) + reported(s, i) =~= errs);
                },
                Err(e) => {
                    self.errors.push(e);
                    assert(errors_view(self.errors@) =~= errs + reported(s, i));
                },
            }
            proof {
                let j = lexeme_end(s, i);
                assert(scan_from(s, i) == emitted(s, i) + scan_from(s, j));
                assert(diagnostics_from(s, i) == reported(s, i) + diagnostics_from(s, j));
                assert(toks + (emitted(s, i) + scan_from(s, j)) =~= (toks + emitted(s, i))
                    + scan_from(s, j));
                assert(errs + (reported(s, i) + diagnostics_from(s, j)) =~= (errs + reported(s, i))
                    + diagnostics_from(s, j));
            }
        }
        let ghost toks = tokens_view(self.tokens@);
        let eof = Token::new(String::new(), self.line, TokenType::Eof, None);
        self.tokens.push(eof);
        proof {
            assert(scan_from(s, self.current as int) == seq![eof_token(s)]);
            assert(tokens_view(self.tokens@) =~= toks + seq![eof_token(s)]);
            assert(errors_view(self.errors@) + diagnostics_from(s, self.current as int)
                =~= errors_view(self.errors@));
            lemma_eof_last_and_only(s);
            lemma_token_lines(s);
            let ts = tokens_view(self.tokens@);
            assert(ts.len() == self.tokens@.len());
            assert forall|k: int| 0 <= k < self.tokens@.len() implies ts[k] == self.tokens@[k]@ by {}
            assert forall|k: int| 0 <= k < self.tokens@.len() - 1 implies self.tokens@[k].token_type
                != TokenType::Eof by {
                assert(ts[k] == self.tokens@[k]@);
                assert(ts[k].token_type != TokenType::Eof);
            }
        }
        &self.tokens
    }
}

} // verus!
