//! Strings: literals with their length in front, and quoted strings.

use vstd::prelude::*;
use vstd::string::*;
use vstd::slice::slice_subrange;
use crate::codec::utf8_text;
use crate::parser::grammar;
use crate::parser::grammar::Step;
use crate::parser::tokens::{byte, crlf, number, word};
use crate::parser::ParseResult;

verus! {

/// Turns bytes into text, or fails where they are no UTF-8.
pub fn text(bytes: &[u8], end: usize) -> (result: ParseResult<String>)
    ensures
        result@ == grammar::text(bytes@, end as int),
{
    match utf8_text(bytes) {
        Some(t) => ParseResult::Success(t.to_owned(), end),
        None => ParseResult::Error,
    }
}

/// Reads the header of a literal at `pos`.
pub fn literal_len(input: &[u8], pos: usize, to_server: bool) -> (result: ParseResult<u64>)
    requires
        pos <= input.len(),
    ensures
        result@ == grammar::literal_len(input@, pos as int, to_server),
        result matches ParseResult::Success(_, next) ==> pos < next <= input.len(),
{
    let after_brace = match byte(input, pos, grammar::LBRACE) {
        ParseResult::Success(_, next) => next,
        ParseResult::Incomplete => {
            return ParseResult::Incomplete;
        },
        ParseResult::Error => {
            return ParseResult::Error;
        },
    };
    let (length, after_number) = match number(input, after_brace) {
        ParseResult::Success(length, next) => (length, next),
        ParseResult::Incomplete => {
            return ParseResult::Incomplete;
        },
        ParseResult::Error => {
            return ParseResult::Error;
        },
    };
    proof {
        reveal_strlit("+}");
        reveal_strlit("}");
        is_ascii_spec_bytes("+}");
        is_ascii_spec_bytes("}");
        assert("+}".spec_bytes() =~= seq![0x2bu8, 0x7du8]);
        assert("}".spec_bytes() =~= seq![0x7du8]);
    }
    let close = if to_server {
        word(input, after_number, "+}", false)
    } else {
        word(input, after_number, "}", false)
    };
    let after_close = match close {
        ParseResult::Success(_, next) => next,
        ParseResult::Incomplete => {
            return ParseResult::Incomplete;
        },
        ParseResult::Error => {
            return ParseResult::Error;
        },
    };
    match crlf(input, after_close) {
        ParseResult::Success(_, next) => ParseResult::Success(length, next),
        ParseResult::Incomplete => ParseResult::Incomplete,
        ParseResult::Error => ParseResult::Error,
    }
}

/// Reads a literal at `pos`.
pub fn literal(input: &[u8], pos: usize, to_server: bool) -> (result: ParseResult<String>)
    requires
        pos <= input.len(),
    ensures
        result@ == grammar::literal(input@, pos as int, to_server),
        result matches ParseResult::Success(_, next) ==> pos < next <= input.len(),
{
    match literal_len(input, pos, to_server) {
        ParseResult::Success(length, start) => {
            if ((input.len() - start) as u64) < length {
                ParseResult::Incomplete
            } else {
                let end = start + length as usize;
                text(slice_subrange(input, start, end), end)
            }
        },
        ParseResult::Incomplete => ParseResult::Incomplete,
        ParseResult::Error => ParseResult::Error,
    }
}

/// Reads the header of a literal that a server sent.
pub fn literal_s2c_len(input: &[u8], pos: usize) -> (result: ParseResult<u64>)
    requires
        pos <= input.len(),
    ensures
        result@ == grammar::literal_len(input@, pos as int, false),
        result matches ParseResult::Success(_, next) ==> pos < next <= input.len(),
{
    literal_len(input, pos, false)
}

/// Reads the header of a literal that a client sent.
pub fn literal_c2s_len(input: &[u8], pos: usize) -> (result: ParseResult<u64>)
    requires
        pos <= input.len(),
    ensures
        result@ == grammar::literal_len(input@, pos as int, true),
        result matches ParseResult::Success(_, next) ==> pos < next <= input.len(),
{
    literal_len(input, pos, true)
}

/// Reads a literal that a server sent.
pub fn literal_s2c(input: &[u8], pos: usize) -> (result: ParseResult<String>)
    requires
        pos <= input.len(),
    ensures
        result@ == grammar::literal(input@, pos as int, false),
        result matches ParseResult::Success(_, next) ==> pos < next <= input.len(),
{
    literal(input, pos, false)
}

/// Reads a literal that a client sent.
pub fn literal_c2s(input: &[u8], pos: usize) -> (result: ParseResult<String>)
    requires
        pos <= input.len(),
    ensures
        result@ == grammar::literal(input@, pos as int, true),
        result matches ParseResult::Success(_, next) ==> pos < next <= input.len(),
{
    literal(input, pos, true)
}

/// Bytes in front of bytes in front of a rest are their concatenation in
/// front of the rest.
pub proof fn lemma_prepend_twice(a: Seq<u8>, b: Seq<u8>, rest: Step<Seq<u8>>)
    ensures
        grammar::prepend(a, grammar::prepend(b, rest)) == grammar::prepend(a + b, rest),
{
    if let Step::Done(bytes, end) = rest {
        assert(a + (b + bytes) =~= (a + b) + bytes);
    }
}

/// Reads a quoted string at `pos`.
pub fn quoted_string(input: &[u8], pos: usize) -> (result: ParseResult<String>)
    requires
        pos <= input.len(),
    ensures
        result@ == grammar::quoted_string(input@, pos as int),
        result matches ParseResult::Success(_, next) ==> pos < next <= input.len(),
{
    match byte(input, pos, grammar::DQUOTE) {
        ParseResult::Success(_, _) => {},
        ParseResult::Incomplete => {
            return ParseResult::Incomplete;
        },
        ParseResult::Error => {
            return ParseResult::Error;
        },
    }
    let mut bytes: Vec<u8> = Vec::new();
    let mut k: usize = pos + 1;
    let ghost whole = grammar::quoted_body(input@, pos + 1);
    proof {
        assert(Seq::<u8>::empty() + whole->Done_0 =~= whole->Done_0);
    }
    loop
        invariant
            pos < k <= input.len(),
            input@[pos as int] == grammar::DQUOTE,
            whole == grammar::quoted_body(input@, pos + 1),
            whole == grammar::prepend(bytes@, grammar::quoted_body(input@, k as int)),
        decreases input.len() - k,
    {
        if k >= input.len() {
            return ParseResult::Incomplete;
        }
        let b = input[k];
        if b == grammar::DQUOTE {
            assert(bytes@ + Seq::<u8>::empty() =~= bytes@);
            return text(bytes.as_slice(), k + 1);
        }
        if b == grammar::BACKSLASH {
            if k + 1 >= input.len() {
                return ParseResult::Incomplete;
            }
            let escaped = input[k + 1];
            if escaped != grammar::DQUOTE && escaped != grammar::BACKSLASH {
                return ParseResult::Error;
            }
            proof {
                lemma_prepend_twice(
                    bytes@,
                    seq![escaped],
                    grammar::quoted_body(input@, k as int + 2),
                );
                assert(bytes@ + seq![escaped] =~= bytes@.push(escaped));
            }
            bytes.push(escaped);
            k += 2;
        } else {
            proof {
                lemma_prepend_twice(bytes@, seq![b], grammar::quoted_body(input@, k as int + 1));
                assert(bytes@ + seq![b] =~= bytes@.push(b));
            }
            bytes.push(b);
            k += 1;
        }
    }
}

/// Reads a string in either form at `pos`.
pub fn sievestring(input: &[u8], pos: usize, to_server: bool) -> (result: ParseResult<String>)
    requires
        pos <= input.len(),
    ensures
        result@ == grammar::sievestring(input@, pos as int, to_server),
        result matches ParseResult::Success(_, next) ==> pos < next <= input.len(),
{
    match literal(input, pos, to_server) {
        ParseResult::Error => quoted_string(input, pos),
        other => other,
    }
}

/// Reads a string that a server sent.
pub fn sievestring_s2c(input: &[u8], pos: usize) -> (result: ParseResult<String>)
    requires
        pos <= input.len(),
    ensures
        result@ == grammar::sievestring(input@, pos as int, false),
        result matches ParseResult::Success(_, next) ==> pos < next <= input.len(),
{
    sievestring(input, pos, false)
}

/// Reads a string that a client sent.
pub fn sievestring_c2s(input: &[u8], pos: usize) -> (result: ParseResult<String>)
    requires
        pos <= input.len(),
    ensures
        result@ == grammar::sievestring(input@, pos as int, true),
        result matches ParseResult::Success(_, next) ==> pos < next <= input.len(),
{
    sievestring(input, pos, true)
}

} // verus!
