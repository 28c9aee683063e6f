use vstd::prelude::*;
use crate::lexical::{
    eof_token, emitted, followed_by, lemma_lexeme_end_bounds, lexeme_end, line_at,
    newlines, operator_kind, scan, scan_from, kind_at, starts_from, token_starts, single_kind, diagnostics, run, CharClass,
};
use crate::token::TokenView;
use crate::token_type::TokenType;

verus! {

/// No lexeme yields an `Eof` token.
proof fn lemma_no_eof_emitted(s: Seq<char>, i: int)
    requires
        0 <= i < s.len(),
    ensures
        forall|k: int| 0 <= k < emitted(s, i).len() ==> emitted(s, i)[k].token_type != TokenType::Eof,
{
}

proof fn lemma_eof_from(s: Seq<char>, i: int)
    requires
        0 <= i,
    ensures
        scan_from(s, i).len() >= 1,
        scan_from(s, i).last() == eof_token(s),
        forall|k: int|
            0 <= k < scan_from(s, i).len() - 1 ==> scan_from(s, i)[k].token_type != TokenType::Eof,
    decreases s.len() - i,
{
    if i < s.len() {
        lemma_lexeme_end_bounds(s, i);
        let j = lexeme_end(s, i);
        lemma_eof_from(s, j);
        lemma_no_eof_emitted(s, i);
        let e = emitted(s, i);
        let rest = scan_from(s, j);
        assert(scan_from(s, i) == e + rest);
        assert forall|k: int| 0 <= k < scan_from(s, i).len() - 1 implies scan_from(
            s,
            i,
        )[k].token_type != TokenType::Eof by {
            if k < e.len() {
                assert(scan_from(s, i)[k] == e[k]);
            } else {
                assert(scan_from(s, i)[k] == rest[k - e.len()]);
            }
        }
    }
}

/// The tokens of every text end in an `Eof` token, and no other token is
/// `Eof`.
pub proof fn lemma_eof_last_and_only(s: Seq<char>)
    ensures
        scan(s).len() >= 1,
        scan(s).last().token_type == TokenType::Eof,
        forall|k: int| 0 <= k < scan(s).len() - 1 ==> scan(s)[k].token_type != TokenType::Eof,
{
    lemma_eof_from(s, 0);
}

/// A text of one punctuation character scans to that character's token,
/// with the character as its lexeme, followed by `Eof`.
pub proof fn lemma_single_punctuation(c: char)
    requires
        single_kind(c) is Some,
    ensures
        scan(seq![c]) == seq![
            TokenView {
                token_type: single_kind(c)->0,
                lexeme: seq![c],
                literal: None,
                line: 1,
            },
            TokenView { token_type: TokenType::Eof, lexeme: seq![], literal: None, line: 1 },
        ],
{
    let s = seq![c];
    assert(s.take(0) =~= Seq::<char>::empty());
    assert(s.take(1) =~= s);
    assert(s.drop_last() =~= Seq::<char>::empty());
    assert(newlines(Seq::<char>::empty()) == 0);
    assert(s.last() == c);
    assert(newlines(s) == 0);
    assert(s.subrange(0, 1) =~= s);
    assert(scan_from(s, 1) == seq![eof_token(s)]);
    assert(scan(s) == emitted(s, 0) + scan_from(s, 1));
    assert(scan(s) =~= seq![
        TokenView {
            token_type: single_kind(c)->0,
            lexeme: seq![c],
            literal: None,
            line: 1,
        },
        TokenView { token_type: TokenType::Eof, lexeme: seq![], literal: None, line: 1 },
    ]);
}

/// An operator that `=` may extend takes the `=` that follows it into one
/// two-character token; without a following `=` it stands alone.
pub proof fn lemma_operator_munch(s: Seq<char>)
    requires
        s.len() >= 1,
        operator_kind(s[0], false) is Some,
    ensures
        scan(s)[0].token_type == operator_kind(s[0], followed_by(s, 0, '='))->0,
        scan(s)[0].lexeme == if followed_by(s, 0, '=') {
            s.take(2)
        } else {
            s.take(1)
        },
{
    lemma_lexeme_end_bounds(s, 0);
    assert(scan(s) == emitted(s, 0) + scan_from(s, lexeme_end(s, 0)));
    assert(s.subrange(0, 2) =~= s.take(2));
    assert(s.subrange(0, 1) =~= s.take(1));
}

/// Two slashes open a comment that runs up to the next line break and
/// yields no token: the tokens are those of the text after it.
pub proof fn lemma_comment_absorbed(s: Seq<char>)
    requires
        s.len() >= 2,
        s[0] == '/',
        s[1] == '/',
    ensures
        scan(s) == scan_from(s, 2 + run(s, 2, CharClass::NotNewline) as int),
{
    lemma_lexeme_end_bounds(s, 0);
    assert(emitted(s, 0) =~= Seq::<TokenView>::empty());
    assert(scan(s) == emitted(s, 0) + scan_from(s, lexeme_end(s, 0)));
    assert(emitted(s, 0) + scan_from(s, lexeme_end(s, 0)) =~= scan_from(s, lexeme_end(s, 0)));
}

proof fn lemma_lines_from(s: Seq<char>, i: int)
    requires
        0 <= i <= s.len(),
    ensures
        starts_from(s, i).len() == scan_from(s, i).len(),
        forall|k: int|
            0 <= k < scan_from(s, i).len() ==> i <= #[trigger] starts_from(s, i)[k] && starts_from(
                s,
                i,
            )[k] + scan_from(s, i)[k].lexeme.len() <= s.len() && scan_from(s, i)[k].lexeme
                == s.subrange(
                starts_from(s, i)[k],
                starts_from(s, i)[k] + scan_from(s, i)[k].lexeme.len(),
            ) && scan_from(s, i)[k].line == newlines(s.take(starts_from(s, i)[k])) + 1,
    decreases s.len() - i,
{
    if i < s.len() {
        lemma_lexeme_end_bounds(s, i);
        let j = lexeme_end(s, i);
        lemma_lines_from(s, j);
        let e = emitted(s, i);
        let rest = scan_from(s, j);
        let head: Seq<int> = if kind_at(s, i) is Some {
            seq![i]
        } else {
            seq![]
        };
        let ps = starts_from(s, j);
        assert(scan_from(s, i) == e + rest);
        assert(starts_from(s, i) == head + ps);
        assert forall|k: int| 0 <= k < scan_from(s, i).len() implies i <= #[trigger] starts_from(
            s,
            i,
        )[k] && starts_from(s, i)[k] + scan_from(s, i)[k].lexeme.len() <= s.len() && scan_from(
            s,
            i,
        )[k].lexeme == s.subrange(
            starts_from(s, i)[k],
            starts_from(s, i)[k] + scan_from(s, i)[k].lexeme.len(),
        ) && scan_from(s, i)[k].line == newlines(s.take(starts_from(s, i)[k])) + 1 by {
            if k < e.len() {
                assert(scan_from(s, i)[k] == e[k]);
                assert(starts_from(s, i)[k] == i);
                assert(e[k].lexeme == s.subrange(i, j));
                assert(e[k].line == line_at(s, i));
            } else {
                assert(scan_from(s, i)[k] == rest[k - e.len()]);
                assert(starts_from(s, i)[k] == ps[k - e.len()]);
            }
        }
    } else {
        assert(scan_from(s, i) == seq![eof_token(s)]);
        assert(s.subrange(s.len() as int, s.len() as int) =~= Seq::<char>::empty());
    }
}

/// Every token's lexeme is the text at the place where the token was
/// scanned, and the token's line is one more than the number of line breaks
/// before that place.
pub proof fn lemma_token_lines(s: Seq<char>)
    ensures
        token_starts(s).len() == scan(s).len(),
        forall|k: int|
            0 <= k < scan(s).len() ==> 0 <= #[trigger] token_starts(s)[k] && token_starts(s)[k]
                + scan(s)[k].lexeme.len() <= s.len() && scan(s)[k].lexeme == s.subrange(
                token_starts(s)[k],
                token_starts(s)[k] + scan(s)[k].lexeme.len(),
            ) && scan(s)[k].line == newlines(s.take(token_starts(s)[k])) + 1,
{
    lemma_lines_from(s, 0);
}

/// Scanning depends on the text alone: equal texts give equal tokens and
/// equal diagnostics.
pub proof fn lemma_scan_deterministic(a: Seq<char>, b: Seq<char>)
    requires
        a == b,
    ensures
        scan(a) == scan(b),
        diagnostics(a) == diagnostics(b),
{
}

} // verus!
