//! Character classes and the few operations on borrowed text that the lexer
//! and the parser are built from. Text is reasoned about as a sequence of
//! characters; the byte offsets that slicing needs are tied to it through
//! the UTF-8 encoding.

use vstd::prelude::*;
use vstd::utf8::*;

verus! {

/// A line feed or a carriage return.
pub open spec fn line_break(c: char) -> bool {
    c == '\n' || c == '\r'
}

/// One of `0` to `9`.
pub open spec fn ascii_digit(c: char) -> bool {
    '0' <= c <= '9'
}

/// One of `a` to `z` or of `A` to `Z`.
pub open spec fn ascii_alphabetic(c: char) -> bool {
    ('a' <= c <= 'z') || ('A' <= c <= 'Z')
}

/// An ASCII letter or digit.
pub open spec fn ascii_alphanumeric(c: char) -> bool {
    ascii_alphabetic(c) || ascii_digit(c)
}

#[verifier::when_used_as_spec(line_break)]
pub fn is_line_break(c: char) -> (b: bool)
    ensures
        b == line_break(c),
{
    c == '\n' || c == '\r'
}

#[verifier::when_used_as_spec(ascii_digit)]
pub fn is_ascii_digit(c: char) -> (b: bool)
    ensures
        b == ascii_digit(c),
{
    '0' <= c && c <= '9'
}

#[verifier::when_used_as_spec(ascii_alphabetic)]
pub fn is_ascii_alphabetic(c: char) -> (b: bool)
    ensures
        b == ascii_alphabetic(c),
{
    ('a' <= c && c <= 'z') || ('A' <= c && c <= 'Z')
}

#[verifier::when_used_as_spec(ascii_alphanumeric)]
pub fn is_ascii_alphanumeric(c: char) -> (b: bool)
    ensures
        b == ascii_alphanumeric(c),
{
    is_ascii_alphabetic(c) || is_ascii_digit(c)
}

/// The number of bytes that the UTF-8 encoding of the characters takes.
pub open spec fn byte_len(s: Seq<char>) -> nat {
    encode_utf8(s).len()
}

/// The encoding of a concatenation is the concatenation of the encodings.
pub proof fn lemma_encode_concat(a: Seq<char>, b: Seq<char>)
    ensures
        encode_utf8(a + b) =~= encode_utf8(a) + encode_utf8(b),
    decreases a.len(),
{
    if a.len() == 0 {
        assert(a + b =~= b);
    } else {
        assert((a + b).drop_first() =~= a.drop_first() + b);
        lemma_encode_concat(a.drop_first(), b);
    }
}

/// Every character takes between one and four bytes.
pub proof fn lemma_scalar_len(c: char)
    ensures
        1 <= encode_scalar(c as u32).len() <= 4,
{
}

/// A text takes at least one byte for each of its characters.
pub proof fn lemma_byte_len_bounds(s: Seq<char>)
    ensures
        s.len() <= byte_len(s),
    decreases s.len(),
{
    if s.len() > 0 {
        lemma_scalar_len(s[0]);
        lemma_byte_len_bounds(s.drop_first());
    }
}

/// The encoding of a prefix ends on a character boundary of the whole.
pub proof fn lemma_encode_boundary(a: Seq<char>, b: Seq<char>)
    ensures
        is_char_boundary(encode_utf8(a + b), byte_len(a) as int),
    decreases a.len(),
{
    let bytes = encode_utf8(a + b);
    encode_utf8_valid_utf8(a + b);
    lemma_encode_concat(a, b);
    if a.len() > 0 {
        let tail = a.drop_first();
        encode_utf8_first_scalar(a + b);
        lemma_scalar_len(a[0]);
        assert((a + b).drop_first() =~= tail + b);
        assert(pop_first_scalar(bytes) =~= encode_utf8(tail + b));
        lemma_encode_boundary(tail, b);
    }
}

/// The number of bytes that the UTF-8 encoding of one character takes.
pub fn char_width(c: char) -> (n: usize)
    ensures
        n == encode_scalar(c as u32).len(),
        1 <= n <= 4,
{
    let v: u32 = c as u32;
    if v < 0x80 {
        1
    } else if v < 0x800 {
        2
    } else if v < 0x10000 {
        3
    } else {
        4
    }
}

/// The first character of the text, if it has one.
pub fn first_char(s: &str) -> (c: Option<char>)
    ensures
        match c {
            Some(c) => s@.len() > 0 && s@[0] == c,
            None => s@.len() == 0,
        },
{
    broadcast use vstd::string::group_string_axioms;

    let mut chars = s.chars();
    chars.next()
}

/// Cuts the text after its first `k` characters, given the byte offset at
/// which they end.
pub(crate) fn split_chars<'a>(s: &'a str, at: usize, Ghost(k): Ghost<int>) -> (parts: (
    &'a str,
    &'a str,
))
    requires
        0 <= k <= s@.len(),
        at == byte_len(s@.take(k)),
    ensures
        parts.0@ == s@.take(k),
        parts.1@ == s@.skip(k),
{
    proof {
        assert(s@ =~= s@.take(k) + s@.skip(k));
        lemma_encode_concat(s@.take(k), s@.skip(k));
        lemma_encode_boundary(s@.take(k), s@.skip(k));
    }
    let parts = s.split_at(at);
    proof {
        let bytes = encode_utf8(s@);
        assert(bytes.subrange(0, at as int) =~= encode_utf8(s@.take(k)));
        assert(bytes.subrange(at as int, bytes.len() as int) =~= encode_utf8(s@.skip(k)));
        encode_utf8_decode_utf8(parts.0@);
        encode_utf8_decode_utf8(parts.1@);
        encode_utf8_decode_utf8(s@.take(k));
        encode_utf8_decode_utf8(s@.skip(k));
    }
    parts
}

/// The first character of the text and the text after it, if the text is
/// not empty.
pub fn split_first<'a>(s: &'a str) -> (parts: Option<(char, &'a str)>)
    ensures
        match parts {
            Some((c, rest)) => s@.len() > 0 && c == s@[0] && rest@ == s@.drop_first(),
            None => s@.len() == 0,
        },
{
    match first_char(s) {
        None => None,
        Some(c) => {
            let n = char_width(c);
            proof {
                lemma_encode_one(c);
                assert(s@.take(1) =~= seq![c]);
                assert(s@.skip(1) =~= s@.drop_first());
            }
            let parts = split_chars(s, n, Ghost(1));
            Some((c, parts.1))
        },
    }
}

/// A single character encodes to its own bytes.
pub proof fn lemma_encode_one(c: char)
    ensures
        encode_utf8(seq![c]) =~= encode_scalar(c as u32),
{
    reveal_with_fuel(encode_utf8, 2);
    assert(seq![c].drop_first() =~= Seq::<char>::empty());
}

/// Whether two texts hold the same characters.
pub fn same_text(a: &str, b: &str) -> (same: bool)
    ensures
        same == (a@ == b@),
{
    let x = a.as_bytes();
    let y = b.as_bytes();
    proof {
        encode_utf8_decode_utf8(a@);
        encode_utf8_decode_utf8(b@);
    }
    if x.len() != y.len() {
        return false;
    }
    let mut i: usize = 0;
    while i < x.len()
        invariant
            x@.len() == y@.len(),
            i <= x@.len(),
            forall|j: int| 0 <= j < i ==> x@[j] == y@[j],
            x@ == encode_utf8(a@),
            y@ == encode_utf8(b@),
            decode_utf8(encode_utf8(a@)) == a@,
            decode_utf8(encode_utf8(b@)) == b@,
        decreases x@.len() - i,
    {
        if x[i] != y[i] {
            return false;
        }
        i += 1;
    }
    assert(x@ =~= y@);
    true
}

/// The last byte of an encoding is the last byte of its last character.
pub proof fn lemma_last_byte(s: Seq<char>)
    requires
        s.len() > 0,
    ensures
        encode_utf8(s).len() > 0,
        encode_utf8(s).last() == encode_scalar(s.last() as u32).last(),
{
    assert(s =~= s.drop_last() + seq![s.last()]);
    lemma_encode_concat(s.drop_last(), seq![s.last()]);
    lemma_encode_one(s.last());
    lemma_scalar_len(s.last());
}

/// Whether the text is not empty and its last character is the double quote.
pub fn ends_with_quote(s: &str) -> (b: bool)
    ensures
        b == (s@.len() > 0 && s@.last() == '"'),
{
    let bytes = s.as_bytes();
    let n = bytes.len();
    if n == 0 {
        proof {
            if s@.len() > 0 {
                lemma_scalar_len(s@[0]);
            }
        }
        return false;
    }
    proof {
        assert(s@.len() > 0) by {
            if s@.len() == 0 {
                assert(encode_utf8(s@).len() == 0);
            }
        }
        let last = s@.last();
        let v = last as u32;
        lemma_last_byte(s@);
        char_is_scalar(last);
        assert(v <= 0x7f ==> (((v & 0x7F) as u8 == 0x22u8) <==> v == 0x22)) by (bit_vector);
        assert((0x80u8 | (v & 0x3F) as u8) != 0x22u8) by (bit_vector);
        char_u32_cast(last, v);
        char_u32_cast('"', 0x22u32);
    }
    bytes[n - 1] == 0x22
}

/// The value of a decimal digit.
pub open spec fn digit_value(c: char) -> int {
    c as int - '0' as int
}

/// Whether every character of the text is a decimal digit.
pub open spec fn all_digits(s: Seq<char>) -> bool {
    forall|i: int| 0 <= i < s.len() ==> ascii_digit(#[trigger] s[i])
}

/// The number that a text of decimal digits writes, most significant digit first.
pub open spec fn decimal(s: Seq<char>) -> int
    decreases s.len(),
{
    if s.len() == 0 {
        0
    } else {
        decimal(s.drop_last()) * 10 + digit_value(s.last())
    }
}

/// The value of an integer literal: the text is one or more decimal digits
/// and the number they write fits a signed 32-bit integer.
pub open spec fn integer_value(s: Seq<char>) -> Option<i32> {
    if s.len() > 0 && all_digits(s) && decimal(s) <= i32::MAX {
        Some(decimal(s) as i32)
    } else {
        None
    }
}

/// A prefix of a text of digits writes a number that is no larger.
pub proof fn lemma_decimal_prefix(s: Seq<char>, k: int)
    requires
        all_digits(s),
        0 <= k <= s.len(),
    ensures
        0 <= decimal(s.take(k)) <= decimal(s),
    decreases s.len(),
{
    if k == s.len() {
        assert(s.take(k) =~= s);
        if s.len() > 0 {
            lemma_decimal_prefix(s.drop_last(), k - 1);
            assert(s.drop_last().take(k - 1) =~= s.drop_last());
        }
    } else {
        lemma_decimal_prefix(s.drop_last(), k);
        assert(s.drop_last().take(k) =~= s.take(k));
    }
}

/// Reads an integer literal.
pub fn parse_decimal(s: &str) -> (value: Option<i32>)
    ensures
        value == integer_value(s@),
{
    let mut rest = s;
    let mut acc: i32 = 0;
    let mut any = false;
    let ghost mut done: int = 0;
    proof {
        assert(s@.skip(0) =~= s@);
    }
    loop
        invariant
            0 <= done <= s@.len(),
            rest@ == s@.skip(done),
            all_digits(s@.take(done)),
            acc == decimal(s@.take(done)),
            0 <= acc,
            any == (done > 0),
        decreases rest@.len(),
    {
        match split_first(rest) {
            None => {
                proof {
                    assert(s@.take(done) =~= s@);
                }
                return if any {
                    Some(acc)
                } else {
                    None
                };
            },
            Some((c, tail)) => {
                assert(c == s@[done]);
                if !is_ascii_digit(c) {
                    return None;
                }
                let d: i32 = (c as u32 - '0' as u32) as i32;
                proof {
                    assert(s@.take(done + 1).drop_last() =~= s@.take(done));
                    assert(s@.take(done + 1).last() == c);
                    assert(d == digit_value(c));
                    assert(all_digits(s@.take(done + 1))) by {
                        assert forall|i: int| 0 <= i < done + 1 implies ascii_digit(
                            #[trigger] s@.take(done + 1)[i],
                        ) by {
                            if i < done {
                                assert(s@.take(done)[i] == s@[i]);
                            }
                        }
                    }
                    if all_digits(s@) {
                        lemma_decimal_prefix(s@, done + 1);
                    }
                }
                if acc > (i32::MAX - d) / 10 {
                    return None;
                }
                acc = acc * 10 + d;
                any = true;
                rest = tail;
                proof {
                    assert(s@.skip(done).drop_first() =~= s@.skip(done + 1));
                    done = done + 1;
                }
            },
        }
    }
}

} // verus!
