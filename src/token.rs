use vstd::prelude::*;
use crate::token_type::TokenType;

verus! {

/// A token: its category, the exact source text that produced it, the
/// literal it carries (strings and numbers only) and the line it starts on.
#[derive(Debug, Clone, PartialEq)]
pub struct Token {
    pub lexeme: String,
    pub line: usize,
    pub token_type: TokenType,
    pub object: Option<String>,
}

/// What a token stands for, with its texts as character sequences.
pub ghost struct TokenView {
    pub token_type: TokenType,
    pub lexeme: Seq<char>,
    pub literal: Option<Seq<char>>,
    pub line: nat,
}

/// The view of an optional text.
pub open spec fn text_view(o: Option<String>) -> Option<Seq<char>> {
    match o {
        Some(s) => Some(s@),
        None => None,
    }
}

impl View for Token {
    type V = TokenView;

    open spec fn view(&self) -> TokenView {
        TokenView {
            token_type: self.token_type,
            lexeme: self.lexeme@,
            literal: text_view(self.object),
            line: self.line as nat,
        }
    }
}

/// The views of a sequence of tokens, element by element.
pub open spec fn tokens_view(ts: Seq<Token>) -> Seq<TokenView> {
    ts.map_values(|t: Token| t@)
}

impl Token {
    /// A token with the given fields.
    pub fn new(lexeme: String, line: usize, token_type: TokenType, object: Option<String>) -> (r:
        Token)
        ensures
            r.lexeme == lexeme,
            r.line == line,
            r.token_type == token_type,
            r.object == object,
    {
        Token { lexeme, line, token_type, object }
    }
}

/// The reserved words of Lox and their categories.
pub open spec fn keyword_of(w: Seq<char>) -> Option<TokenType> {
    if w == seq!['a', 'n', 'd'] {
        Some(TokenType::And)
    } else if w == seq!['c', 'l', 'a', 's', 's'] {
        Some(TokenType::Class)
    } else if w == seq!['e', 'l', 's', 'e'] {
        Some(TokenType::Else)
    } else if w == seq!['f', 'a', 'l', 's', 'e'] {
        Some(TokenType::False)
    } else if w == seq!['f', 'o', 'r'] {
        Some(TokenType::For)
    } else if w == seq!['f', 'u', 'n'] {
        Some(TokenType::Fun)
    } else if w == seq!['i', 'f'] {
        Some(TokenType::If)
    } else if w == seq!['n', 'i', 'l'] {
        Some(TokenType::Nil)
    } else if w == seq!['o', 'r'] {
        Some(TokenType::Or)
    } else if w == seq!['p', 'r', 'i', 'n', 't'] {
        Some(TokenType::Print)
    } else if w == seq!['r', 'e', 't', 'u', 'r', 'n'] {
        Some(TokenType::Return)
    } else if w == seq!['s', 'u', 'p', 'e', 'r'] {
        Some(TokenType::Super)
    } else if w == seq!['t', 'h', 'i', 's'] {
        Some(TokenType::This)
    } else if w == seq!['t', 'r', 'u', 'e'] {
        Some(TokenType::True)
    } else if w == seq!['v', 'a', 'r'] {
        Some(TokenType::Var)
    } else if w == seq!['w', 'h', 'i', 'l', 'e'] {
        Some(TokenType::While)
    } else {
        None
    }
}

/// Whether two character slices hold the same characters.
fn same_chars(a: &[char], b: &[char]) -> (r: bool)
    ensures
        r == (a@ == b@),
{
    if a.len() != b.len() {
        return false;
    }
    let mut i: usize = 0;
    while i < a.len()
        invariant
            a@.len() == b@.len(),
            i <= a@.len(),
            forall|j: int| 0 <= j < i ==> a@[j] == b@[j],
        decreases a@.len() - i,
    {
        if a[i] != b[i] {
            return false;
        }
        i = i + 1;
    }
    assert(a@ =~= b@);
    true
}

/// Looks a word up in the table of reserved words.
pub fn keyword(word: &[char]) -> (r: Option<TokenType>)
    ensures
        r == keyword_of(word@),
{
    let k = ['a', 'n', 'd'];
    assert(k@ =~= seq!['a', 'n', 'd']);
    if same_chars(word, &k) {
        return Some(TokenType::And);
    }
    let k = ['c', 'l', 'a', 's', 's'];
    assert(k@ =~= seq!['c', 'l', 'a', 's', 's']);
    if same_chars(word, &k) {
        return Some(TokenType::Class);
    }
    let k = ['e', 'l', 's', 'e'];
    assert(k@ =~= seq!['e', 'l', 's', 'e']);
    if same_chars(word, &k) {
        return Some(TokenType::Else);
    }
    let k = ['f', 'a', 'l', 's', 'e'];
    assert(k@ =~= seq!['f', 'a', 'l', 's', 'e']);
    if same_chars(word, &k) {
        return Some(TokenType::False);
    }
    let k = ['f', 'o', 'r'];
    assert(k@ =~= seq!['f', 'o', 'r']);
    if same_chars(word, &k) {
        return Some(TokenType::For);
    }
    let k = ['f', 'u', 'n'];
    assert(k@ =~= seq!['f', 'u', 'n']);
    if same_chars(word, &k) {
        return Some(TokenType::Fun);
    }
    let k = ['i', 'f'];
    assert(k@ =~= seq!['i', 'f']);
    if same_chars(word, &k) {
        return Some(TokenType::If);
    }
    let k = ['n', 'i', 'l'];
    assert(k@ =~= seq!['n', 'i', 'l']);
    if same_chars(word, &k) {
        return Some(TokenType::Nil);
    }
    let k = ['o', 'r'];
    assert(k@ =~= seq!['o', 'r']);
    if same_chars(word, &k) {
        return Some(TokenType::Or);
    }
    let k = ['p', 'r', 'i', 'n', 't'];
    assert(k@ =~= seq!['p', 'r', 'i', 'n', 't']);
    if same_chars(word, &k) {
        return Some(TokenType::Print);
    }
    let k = ['r', 'e', 't', 'u', 'r', 'n'];
    assert(k@ =~= seq!['r', 'e', 't', 'u', 'r', 'n']);
    if same_chars(word, &k) {
        return Some(TokenType::Return);
    }
    let k = ['s', 'u', 'p', 'e', 'r'];
    assert(k@ =~= seq!['s', 'u', 'p', 'e', 'r']);
    if same_chars(word, &k) {
        return Some(TokenType::Super);
    }
    let k = ['t', 'h', 'i', 's'];
    assert(k@ =~= seq!['t', 'h', 'i', 's']);
    if same_chars(word, &k) {
        return Some(TokenType::This);
    }
    let k = ['t', 'r', 'u', 'e'];
    assert(k@ =~= seq!['t', 'r', 'u', 'e']);
    if same_chars(word, &k) {
        return Some(TokenType::True);
    }
    let k = ['v', 'a', 'r'];
    assert(k@ =~= seq!['v', 'a', 'r']);
    if same_chars(word, &k) {
        return Some(TokenType::Var);
    }
    let k = ['w', 'h', 'i', 'l', 'e'];
    assert(k@ =~= seq!['w', 'h', 'i', 'l', 'e']);
    if same_chars(word, &k) {
        return Some(TokenType::While);
    }
    None
}

} // verus!
