//! The whole run of the lexer over a text: the tokens that it produces one
//! after the other, and what holds of them.

use super::{head, lemma_head, recognizer, Lexeme, TokenKind, TokenMatcher};
use vstd::prelude::*;

verus! {

/// The text that a call of the lexer leaves, given the text before it.
pub open spec fn rest(s: Seq<char>) -> Seq<char> {
    match head(s) {
        Some(t) => s.skip(t.text.len() as int),
        None => s,
    }
}

/// The text that `n` calls of the lexer leave.
pub open spec fn rest_after(s: Seq<char>, n: nat) -> Seq<char>
    decreases n,
{
    if n == 0 {
        s
    } else {
        rest_after(rest(s), (n - 1) as nat)
    }
}

/// The tokens that the lexer produces from a text, in the order in which
/// it produces them, up to the end of the text or to the first character
/// that begins no token. The end-of-input token is not among them.
pub open spec fn lexemes(s: Seq<char>) -> Seq<Lexeme>
    decreases s.len(),
{
    match head(s) {
        Some(t) => if s.len() == 0 {
            Seq::empty()
        } else {
            proof {
                lemma_head(s);
            }
            seq![t] + lexemes(s.skip(t.text.len() as int))
        },
        None => Seq::empty(),
    }
}

/// The text at which the lexer stops producing tokens: empty where it
/// reaches the end, else the part from the first character that begins no
/// token.
pub open spec fn unlexed(s: Seq<char>) -> Seq<char>
    decreases s.len(),
{
    match head(s) {
        Some(t) => if s.len() == 0 {
            s
        } else {
            proof {
                lemma_head(s);
            }
            unlexed(s.skip(t.text.len() as int))
        },
        None => s,
    }
}

/// The spans of the tokens, one after the other.
pub open spec fn concat(tokens: Seq<Lexeme>) -> Seq<char>
    decreases tokens.len(),
{
    if tokens.len() == 0 {
        Seq::empty()
    } else {
        tokens[0].text + concat(tokens.drop_first())
    }
}

/// Whether some recognizer accepts `c` as the first character of a token.
pub open spec fn recognized(c: char) -> bool {
    recognizer(c) is Some
}

/// The characters with which a token can begin.
pub proof fn lemma_recognized(c: char)
    ensures
        recognized(c) <==> {
            ||| c == ' '
            ||| c == '\n'
            ||| c == '\r'
            ||| ('a' <= c <= 'z')
            ||| ('A' <= c <= 'Z')
            ||| ('0' <= c <= '9')
            ||| c == '='
            ||| c == '"'
            ||| c == '('
            ||| c == ')'
            ||| c == '{'
            ||| c == '}'
            ||| c == ','
        },
{
    reveal_with_fuel(super::first_match, 12);
    let all = TokenMatcher::ordered();
    assert(all.drop_first()[0] == TokenMatcher::LineBreak);
}

/// The spans of the tokens that the lexer produces, followed by the text
/// at which it stops, are the text: nothing is dropped, nothing is read
/// twice. It stops before the end only at a character that begins no token.
pub proof fn lemma_spans_partition(s: Seq<char>)
    ensures
        concat(lexemes(s)) + unlexed(s) == s,
        unlexed(s).len() > 0 ==> !recognized(unlexed(s)[0]),
    decreases s.len(),
{
    lemma_head(s);
    match head(s) {
        Some(t) => {
            if s.len() > 0 {
                let n = t.text.len() as int;
                let tail = s.skip(n);
                lemma_spans_partition(tail);
                let tokens = lexemes(s);
                assert(tokens.drop_first() =~= lexemes(tail));
                assert(tokens[0] == t);
                assert(s =~= s.take(n) + tail);
                assert(concat(tokens) + unlexed(s) =~= t.text + (concat(lexemes(tail)) + unlexed(
                    tail,
                )));
            } else {
                assert(concat(lexemes(s)) + unlexed(s) =~= s);
            }
        },
        None => {
            assert(concat(lexemes(s)) + unlexed(s) =~= s);
        },
    }
}

/// The lexer stops within the text that it was given: the text at which
/// it stops is the end of that text.
pub proof fn lemma_unlexed_suffix(s: Seq<char>)
    ensures
        unlexed(s).len() <= s.len(),
        unlexed(s) == s.skip(s.len() - unlexed(s).len()),
    decreases s.len(),
{
    lemma_head(s);
    match head(s) {
        Some(t) => {
            if s.len() > 0 {
                let n = t.text.len() as int;
                let tail = s.skip(n);
                lemma_unlexed_suffix(tail);
                assert(tail.skip(tail.len() - unlexed(tail).len()) =~= s.skip(
                    s.len() - unlexed(s).len(),
                ));
            } else {
                assert(s.skip(0) =~= s);
            }
        },
        None => {
            assert(s.skip(0) =~= s);
        },
    }
}

/// Of a text in which every character can begin a token, the spans of the
/// tokens that the lexer produces, one after the other, are the text.
pub proof fn lemma_recognized_text_partition(s: Seq<char>)
    requires
        forall|i: int| 0 <= i < s.len() ==> recognized(#[trigger] s[i]),
    ensures
        unlexed(s).len() == 0,
        concat(lexemes(s)) == s,
{
    lemma_spans_partition(s);
    lemma_unlexed_suffix(s);
    if unlexed(s).len() > 0 {
        let k = s.len() - unlexed(s).len();
        assert(unlexed(s)[0] == s[k]);
    }
    assert(concat(lexemes(s)) + unlexed(s) =~= concat(lexemes(s)));
}

/// Once the lexer has returned the end-of-input token, it returns it on
/// every later call, and the text before it stays empty.
pub proof fn lemma_eof_repeats(s: Seq<char>, i: nat, j: nat)
    requires
        i <= j,
        head(rest_after(s, i)) matches Some(t) && t.kind == TokenKind::Eof,
    ensures
        head(rest_after(s, j)) == Some(Lexeme::eof()),
        rest_after(s, j).len() == 0,
    decreases j,
{
    if i == 0 {
        lemma_head(s);
        assert(s.len() == 0);
        lemma_end_stays(s, j);
    } else {
        lemma_eof_repeats(rest(s), (i - 1) as nat, (j - 1) as nat);
    }
}

/// At the end of the text every call leaves the text as it is.
pub proof fn lemma_end_stays(s: Seq<char>, n: nat)
    requires
        s.len() == 0,
    ensures
        rest_after(s, n) == s,
        head(rest_after(s, n)) == Some(Lexeme::eof()),
    decreases n,
{
    if n > 0 {
        assert(rest(s) =~= s);
        lemma_end_stays(s, (n - 1) as nat);
    }
}

/// No token but the end-of-input token is of kind `Eof`, and only that
/// token is empty.
pub proof fn lemma_lexemes(s: Seq<char>, i: int)
    requires
        0 <= i < lexemes(s).len(),
    ensures
        lexemes(s)[i].kind != TokenKind::Eof,
        lexemes(s)[i].text.len() > 0,
    decreases s.len(),
{
    lemma_head(s);
    match head(s) {
        Some(t) => {
            if s.len() > 0 && i > 0 {
                let tail = s.skip(t.text.len() as int);
                assert(lexemes(s).drop_first() =~= lexemes(tail));
                lemma_lexemes(tail, i - 1);
            }
        },
        None => {},
    }
}

} // verus!
