//! The token-matching automaton that turns source text into tokens, one per
//! call, and the mathematical account of what it produces.

pub mod token;
pub mod tokens;

pub use token::{Lexeme, Token, TokenKind, TokenMatcher};

use crate::text::{
    byte_len, char_width, first_char, lemma_byte_len_bounds, lemma_encode_concat,
    lemma_encode_one, split_chars,
};
use vstd::prelude::*;

verus! {

/// The first recognizer of the list that accepts `c` as the first character
/// of a token.
pub open spec fn first_match(list: Seq<TokenMatcher>, c: char) -> Option<TokenMatcher>
    decreases list.len(),
{
    if list.len() == 0 {
        None
    } else if list[0].accepts(Seq::empty(), c) {
        Some(list[0])
    } else {
        first_match(list.drop_first(), c)
    }
}

/// The recognizer of the token that begins with `c`, if any recognizer
/// accepts it.
pub open spec fn recognizer(c: char) -> Option<TokenMatcher> {
    first_match(TokenMatcher::ordered(), c)
}

/// Where the span that `m` has accumulated over the first `n` characters of
/// `s` ends: it grows as long as `m` accepts the next character.
pub open spec fn span_end(m: TokenMatcher, s: Seq<char>, n: int) -> int
    decreases s.len() - n,
{
    if 0 <= n < s.len() && m.accepts(s.take(n), s[n]) {
        span_end(m, s, n + 1)
    } else {
        n
    }
}

/// The token at the head of the text `s`: the end-of-input token if `s` is
/// empty, else the longest span that the recognizer of its first character
/// accepts. `None` if no recognizer accepts the first character.
pub open spec fn head(s: Seq<char>) -> Option<Lexeme> {
    if s.len() == 0 {
        Some(Lexeme::eof())
    } else {
        match recognizer(s[0]) {
            None => None,
            Some(m) => {
                let text = s.take(span_end(m, s, 1));
                Some(Lexeme { kind: m.kind_of(text), text })
            },
        }
    }
}

/// A recognizer that the search returns accepts the character, and so is
/// not `Reset`.
pub proof fn lemma_first_match(list: Seq<TokenMatcher>, c: char)
    ensures
        first_match(list, c) matches Some(m) ==> m.accepts(Seq::empty(), c) && m
            != TokenMatcher::Reset,
    decreases list.len(),
{
    if list.len() > 0 && !list[0].accepts(Seq::empty(), c) {
        lemma_first_match(list.drop_first(), c);
    }
}

/// A span never shrinks and never leaves the text.
pub proof fn lemma_span_bounds(m: TokenMatcher, s: Seq<char>, n: int)
    requires
        0 <= n <= s.len(),
    ensures
        n <= span_end(m, s, n) <= s.len(),
    decreases s.len() - n,
{
    if n < s.len() && m.accepts(s.take(n), s[n]) {
        lemma_span_bounds(m, s, n + 1);
    }
}

/// The head token is a prefix of the text. It is the end-of-input token
/// exactly at the end of the text; any other token has at least one
/// character and is not of kind `Eof`. There is no head token only where
/// the text begins with a character that no recognizer accepts.
pub proof fn lemma_head(s: Seq<char>)
    ensures
        match head(s) {
            Some(t) => {
                &&& t.text.len() <= s.len()
                &&& t.text == s.take(t.text.len() as int)
                &&& s.len() == 0 ==> t == Lexeme::eof()
                &&& s.len() > 0 ==> t.text.len() >= 1 && t.kind != TokenKind::Eof
            },
            None => s.len() > 0 && recognizer(s[0]) is None,
        },
{
    if s.len() > 0 {
        lemma_first_match(TokenMatcher::ordered(), s[0]);
        match recognizer(s[0]) {
            Some(m) => {
                lemma_span_bounds(m, s, 1);
            },
            None => {},
        }
    }
}

/// A span is the longest that its recognizer accepts: every character of
/// it was accepted after those before it, and the character after it, if
/// there is one, is not.
pub proof fn lemma_span(m: TokenMatcher, s: Seq<char>, from: int)
    requires
        0 <= from <= s.len(),
    ensures
        from <= span_end(m, s, from) <= s.len(),
        forall|i: int| from <= i < span_end(m, s, from) ==> m.accepts(s.take(i), #[trigger] s[i]),
        span_end(m, s, from) < s.len() ==> !m.accepts(
            s.take(span_end(m, s, from)),
            s[span_end(m, s, from)],
        ),
    decreases s.len() - from,
{
    if from < s.len() && m.accepts(s.take(from), s[from]) {
        lemma_span(m, s, from + 1);
    }
}

/// A string literal runs from its opening quote through the next quote,
/// or to the end of the text where there is none: no character between
/// its first and its last is a quote, and where text follows it, its last
/// character is one.
pub proof fn lemma_string_span(s: Seq<char>)
    requires
        s.len() > 0,
        s[0] == '"',
    ensures
        head(s) matches Some(t) && t.kind == TokenKind::StringLiteral && t.text == s.take(
            t.text.len() as int,
        ),
        ({
            let n = head(s)->Some_0.text.len();
            &&& 1 <= n <= s.len()
            &&& s.len() >= 2 ==> n >= 2
            &&& forall|i: int| 1 <= i < n - 1 ==> s[i] != '"'
            &&& n < s.len() ==> s[n - 1] == '"'
        }),
{
    reveal_with_fuel(first_match, 12);
    let m = TokenMatcher::StringLiteral;
    assert(recognizer(s[0]) == Some(m));
    let n = span_end(m, s, 1);
    lemma_span(m, s, 1);
    assert forall|i: int| 1 <= i < n - 1 implies s[i] != '"' by {
        assert(m.accepts(s.take(i + 1), s[i + 1]));
        assert(s.take(i + 1).last() == s[i]);
    }
    if n < s.len() {
        if n == 1 {
            assert(m.accepts(s.take(1), s[1]));
        }
        assert(s.take(n).last() == s[n - 1]);
    }
    if s.len() >= 2 {
        assert(m.accepts(s.take(1), s[1]));
    }
}

/// The failure of the lexer: no recognizer accepts the next character.
#[derive(Debug)]
pub struct TokenMatcherNotFound;

/// Finds the recognizer of the token that begins with `c`.
fn recognize(c: char) -> (found: Option<TokenMatcher>)
    ensures
        found == recognizer(c),
        found matches Some(matcher) ==> matcher.accepts(Seq::empty(), c),
{
    let all = TokenMatcher::all();
    let mut i: usize = 0;
    proof {
        reveal_strlit("");
        assert(all@.skip(0) =~= all@);
    }
    while i < all.len()
        invariant
            i <= all@.len(),
            all@ == TokenMatcher::ordered(),
            ""@.len() == 0,
            recognizer(c) == first_match(all@.skip(i as int), c),
        decreases all@.len() - i,
    {
        let matcher = all[i];
        assert(all@.skip(i as int)[0] == matcher);
        assert(""@ =~= Seq::<char>::empty());
        if matcher.check("", 0, c) {
            return Some(matcher);
        }
        assert(all@.skip(i as int).drop_first() =~= all@.skip(i + 1));
        i += 1;
    }
    None
}

/// The automaton. Between two calls no token is in progress; the text that
/// is still to be tokenized is `remaining()`.
pub struct Lexer<'c> {
    left: &'c str,
    buf_pos: usize,
    buf_chars: usize,
    matcher: TokenMatcher,
}

impl<'c> Lexer<'c> {
    /// The span lies within the text, and its byte offset is that of its end.
    spec fn consistent(&self) -> bool {
        &&& self.buf_chars <= self.left@.len()
        &&& self.buf_pos == byte_len(self.left@.take(self.buf_chars as int))
    }

    /// The state between two calls.
    pub closed spec fn wf(&self) -> bool {
        self.consistent() && self.matcher == TokenMatcher::Reset
    }

    /// The text that was not consumed yet.
    pub closed spec fn remaining(&self) -> Seq<char> {
        self.left@.skip(self.buf_chars as int)
    }

    /// A lexer with the whole of `left` before it.
    pub fn new(left: &'c str) -> (lexer: Lexer<'c>)
        ensures
            lexer.wf(),
            lexer.remaining() == left@,
    {
        proof {
            assert(left@.take(0) =~= Seq::<char>::empty());
            assert(left@.skip(0) =~= left@);
        }
        Lexer { left, buf_pos: 0, buf_chars: 0, matcher: TokenMatcher::Reset }
    }

    fn next_char(&self) -> (c: Option<char>)
        requires
            self.consistent(),
        ensures
            match c {
                Some(c) => self.remaining().len() > 0 && c == self.remaining()[0],
                None => self.remaining().len() == 0,
            },
    {
        let parts = split_chars(self.left, self.buf_pos, Ghost(self.buf_chars as int));
        first_char(parts.1)
    }

    fn buf(&self) -> (buf: &'c str)
        requires
            self.consistent(),
        ensures
            buf@ == self.left@.take(self.buf_chars as int),
    {
        let parts = split_chars(self.left, self.buf_pos, Ghost(self.buf_chars as int));
        parts.0
    }

    fn inc_buf(&mut self, n: usize)
        requires
            old(self).consistent(),
            old(self).remaining().len() > 0,
            n == byte_len(seq![old(self).remaining()[0]]),
        ensures
            final(self).consistent(),
            final(self).left == old(self).left,
            final(self).matcher == old(self).matcher,
            final(self).buf_chars == old(self).buf_chars + 1,
    {
        let total = self.left.as_bytes().len();
        proof {
            let k = self.buf_chars as int;
            let text = self.left@;
            assert(text.take(k + 1) =~= text.take(k) + seq![text[k]]);
            lemma_encode_concat(text.take(k), seq![text[k]]);
            assert(text =~= text.take(k + 1) + text.skip(k + 1));
            lemma_encode_concat(text.take(k + 1), text.skip(k + 1));
            lemma_byte_len_bounds(text);
        }
        self.buf_pos = self.buf_pos + n;
        self.buf_chars = self.buf_chars + 1;
    }

    fn reset_buf(&mut self)
        requires
            old(self).consistent(),
        ensures
            final(self).consistent(),
            final(self).left@ == old(self).remaining(),
            final(self).matcher == old(self).matcher,
            final(self).buf_chars == 0,
    {
        let parts = split_chars(self.left, self.buf_pos, Ghost(self.buf_chars as int));
        self.left = parts.1;
        self.buf_pos = 0;
        self.buf_chars = 0;
        proof {
            assert(self.left@.take(0) =~= Seq::<char>::empty());
        }
    }

    /// Produces the next token: the one at the head of the remaining text,
    /// which it consumes. At the end of the text it returns the end-of-input
    /// token, on every call. Where no recognizer accepts the next character
    /// it fails and consumes nothing.
    pub fn next(&mut self) -> (result: Result<Token<'c>, TokenMatcherNotFound>)
        requires
            old(self).wf(),
        ensures
            final(self).wf(),
            match head(old(self).remaining()) {
                Some(lexeme) => {
                    &&& result matches Ok(token) && token@ == lexeme
                    &&& final(self).remaining() == old(self).remaining().skip(
                        lexeme.text.len() as int,
                    )
                },
                None => result is Err && final(self).remaining() == old(self).remaining(),
            },
            result matches Ok(token) && token@.kind == TokenKind::Eof ==> old(
                self,
            ).remaining().len() == 0 && final(self).remaining().len() == 0,
    {
        let ghost input = self.remaining();
        proof {
            lemma_head(input);
        }
        loop
            invariant
                input == old(self).remaining(),
                self.consistent(),
                self.matcher == TokenMatcher::Reset ==> self.remaining() == input,
                self.matcher != TokenMatcher::Reset ==> {
                    &&& self.left@ == input
                    &&& self.buf_chars >= 1
                    &&& recognizer(input[0]) == Some(self.matcher)
                    &&& span_end(self.matcher, input, self.buf_chars as int) == span_end(
                        self.matcher,
                        input,
                        1,
                    )
                },
            ensures
                self.remaining().len() == 0,
            decreases self.left@.len() - self.buf_chars,
        {
            match self.next_char() {
                None => {
                    break ;
                },
                Some(c) => {
                    let width = char_width(c);
                    proof {
                        lemma_encode_one(c);
                    }
                    if self.matcher.check(self.buf(), self.buf_chars, c) {
                        self.inc_buf(width);
                    } else if self.matcher != TokenMatcher::Reset {
                        let token = self.matcher.emit(self.buf());
                        self.matcher = TokenMatcher::Reset;
                        proof {
                            assert(input.skip(0) =~= input);
                        }
                        return Ok(token);
                    } else {
                        match recognize(c) {
                            None => {
                                return Err(TokenMatcherNotFound);
                            },
                            Some(matcher) => {
                                self.matcher = matcher;
                            },
                        }
                        self.reset_buf();
                        self.inc_buf(width);
                    }
                },
            }
        }
        if self.matcher != TokenMatcher::Reset {
            let token = self.matcher.emit(self.buf());
            self.matcher = TokenMatcher::Reset;
            Ok(token)
        } else {
            proof {
                assert(input.skip(0) =~= input);
            }
            Ok(Token::eof())
        }
    }
}

} // verus!
