//! What holds of the grammar whatever the bytes are.

use vstd::prelude::*;
use vstd::string::*;
use vstd::utf8::*;
use crate::codec::{decimal, digit};
use crate::parser::grammar::{
    decimal_digits, decimal_value, fold_case, literal, literal_close, literal_header,
    join_blank, literal_len, number, run_end, same_byte, sievestring, split_blank, word,
    ByteClass, Step, LBRACE,
};
use crate::parser::tokens::lemma_run_end;

verus! {

/// The digits of a number are digits, and they stand for the number.
pub proof fn lemma_decimal_digits(n: nat)
    ensures
        decimal_digits(n).len() > 0,
        forall|k: int|
            0 <= k < decimal_digits(n).len() ==> ByteClass::Digit.admits(
                #[trigger] decimal_digits(n)[k],
            ),
        decimal_value(decimal_digits(n)) == n,
    decreases n,
{
    if n < 10 {
        let digits = decimal_digits(n);
        assert(digits.drop_last() =~= Seq::<u8>::empty());
        assert(decimal_value(digits.drop_last()) == 0);
    } else {
        lemma_decimal_digits(n / 10);
        let digits = decimal_digits(n);
        assert(digits.drop_last() =~= decimal_digits(n / 10));
    }
}

/// A word that stands in the buffer is read there.
pub proof fn lemma_word_found(s: Seq<u8>, i: int, w: Seq<u8>, caseless: bool)
    requires
        0 <= i,
        i + w.len() <= s.len(),
        s.subrange(i, i + w.len()) == w,
    ensures
        word(s, i, w, caseless) == Step::Done((), i + w.len()),
{
    assert forall|k: int| 0 <= k < w.len() implies same_byte(#[trigger] s[i + k], w[k], caseless) by {
        assert(s.subrange(i, i + w.len())[k] == s[i + k]);
    }
}

/// The header of a literal is read as the length it was written for.
pub proof fn lemma_header_reads_back(s: Seq<u8>, n: nat, to_server: bool)
    requires
        n <= u64::MAX,
        literal_header(n, to_server).len() <= s.len(),
        s.subrange(0, literal_header(n, to_server).len() as int) == literal_header(n, to_server),
    ensures
        literal_len(s, 0, to_server) == Step::Done(
            n as u64,
            literal_header(n, to_server).len() as int,
        ),
{
    let header = literal_header(n, to_server);
    let digits = decimal_digits(n);
    let close = literal_close(to_server);
    let d = digits.len() as int;
    let c = close.len() as int;
    lemma_decimal_digits(n);
    assert forall|k: int| 0 <= k < header.len() implies s[k] == #[trigger] header[k] by {
        assert(s.subrange(0, header.len() as int)[k] == s[k]);
    }
    assert(s[0] == header[0]);
    assert forall|k: int| 1 <= k < 1 + d implies ByteClass::Digit.admits(#[trigger] s[k]) by {
        assert(s[k] == header[k]);
        assert(header[k] == digits[k - 1]);
    }
    lemma_run_end(s, 1, 1 + d, ByteClass::Digit);
    assert(s[1 + d] == header[1 + d]);
    assert(header[1 + d] == close[0]);
    assert(!ByteClass::Digit.admits(s[1 + d]));
    assert(run_end(s, 1 + d, ByteClass::Digit) == 1 + d);
    assert(s.subrange(1, 1 + d) =~= digits) by {
        assert forall|k: int| 0 <= k < d implies s.subrange(1, 1 + d)[k] == digits[k] by {
            assert(s[1 + k] == header[1 + k]);
        }
    }
    assert(number(s, 1) == Step::Done(n as u64, 1 + d));
    assert(s.subrange(1 + d, 1 + d + c) =~= close) by {
        assert forall|k: int| 0 <= k < c implies s.subrange(1 + d, 1 + d + c)[k] == close[k] by {
            assert(s[1 + d + k] == header[1 + d + k]);
        }
    }
    lemma_word_found(s, 1 + d, close, false);
    let eol = seq![0x0du8, 0x0au8];
    assert(s.subrange(1 + d + c, 1 + d + c + 2) =~= eol) by {
        assert forall|k: int| 0 <= k < 2 implies s.subrange(1 + d + c, 1 + d + c + 2)[k]
            == eol[k] by {
            assert(s[1 + d + c + k] == header[1 + d + c + k]);
        }
    }
    lemma_word_found(s, 1 + d + c, eol, false);
}

/// A literal reads back as the text that was written into it: for every
/// text, the header of the length of its bytes followed by its bytes is
/// read as that text, whatever comes after.
pub proof fn law_literal_reads_back(text: Seq<char>, rest: Seq<u8>, to_server: bool)
    requires
        encode_utf8(text).len() <= u64::MAX,
    ensures
        literal(
            literal_header(encode_utf8(text).len(), to_server) + encode_utf8(text) + rest,
            0,
            to_server,
        ) == Step::Done(
            text,
            (literal_header(encode_utf8(text).len(), to_server).len() + encode_utf8(text).len())
                as int,
        ),
        sievestring(
            literal_header(encode_utf8(text).len(), to_server) + encode_utf8(text) + rest,
            0,
            to_server,
        ) == Step::Done(
            text,
            (literal_header(encode_utf8(text).len(), to_server).len() + encode_utf8(text).len())
                as int,
        ),
{
    let payload = encode_utf8(text);
    let n = payload.len();
    let header = literal_header(n, to_server);
    let s = header + payload + rest;
    let h = header.len() as int;
    assert(s.subrange(0, h) =~= header);
    lemma_header_reads_back(s, n, to_server);
    assert(s.subrange(h, h + n) =~= payload);
    encode_utf8_valid_utf8(text);
    encode_utf8_decode_utf8(text);
}

/// A literal is never read short: as long as fewer bytes have arrived
/// after the header than the header says, more are needed.
pub proof fn law_literal_needs_all_bytes(n: nat, arrived: Seq<u8>, to_server: bool)
    requires
        n <= u64::MAX,
        arrived.len() < n,
    ensures
        literal(literal_header(n, to_server) + arrived, 0, to_server) == Step::<
            Seq<char>,
        >::Incomplete,
        sievestring(literal_header(n, to_server) + arrived, 0, to_server) == Step::<
            Seq<char>,
        >::Incomplete,
{
    let header = literal_header(n, to_server);
    let s = header + arrived;
    assert(s.subrange(0, header.len() as int) =~= header);
    lemma_header_reads_back(s, n, to_server);
}

/// The bytes of two texts in a row are the bytes of the one and then the
/// bytes of the other.
pub proof fn lemma_encode_concat(a: Seq<char>, b: Seq<char>)
    ensures
        encode_utf8(a + b) == encode_utf8(a) + encode_utf8(b),
    decreases a.len(),
{
    if a.len() == 0 {
        assert(a + b =~= b);
        assert(encode_utf8(a) + encode_utf8(b) =~= encode_utf8(b));
    } else {
        lemma_encode_concat(a.drop_first(), b);
        assert((a + b).drop_first() =~= a.drop_first() + b);
        assert((a + b)[0] == a[0]);
        assert(encode_scalar(a[0] as u32) + (encode_utf8(a.drop_first()) + encode_utf8(b))
            =~= (encode_scalar(a[0] as u32) + encode_utf8(a.drop_first())) + encode_utf8(b));
    }
}

/// The decimal notation of a number is made of its decimal digits.
pub proof fn lemma_decimal_bytes(n: nat)
    ensures
        is_ascii_chars(decimal(n)),
        encode_utf8(decimal(n)) == decimal_digits(n),
    decreases n,
{
    let chars = decimal(n);
    let digits = decimal_digits(n);
    assert(chars.len() == digits.len() && forall|k: int|
        0 <= k < chars.len() ==> '\0' <= (#[trigger] chars[k]) <= '\u{7f}' && chars[k] as u8
            == digits[k]) by {
        lemma_decimal_chars(n);
    }
    is_ascii_chars_encode_utf8(chars);
    assert(encode_utf8(chars) =~= digits);
}

/// Each character of the decimal notation of a number is the character of
/// the digit at its place.
pub proof fn lemma_decimal_chars(n: nat)
    ensures
        decimal(n).len() == decimal_digits(n).len(),
        forall|k: int|
            0 <= k < decimal(n).len() ==> '\0' <= (#[trigger] decimal(n)[k]) <= '\u{7f}'
                && decimal(n)[k] as u8 == decimal_digits(n)[k],
    decreases n,
{
    if n >= 10 {
        lemma_decimal_chars(n / 10);
        let d = (n % 10) as nat;
        assert(digit(d) as u8 == (0x30 + d) as u8);
    } else {
        assert(digit(n) as u8 == (0x30 + n) as u8);
    }
}

/// What a client writes as a literal, a server reads as the same text:
/// the bytes of the literal of a text are read as that text, to their
/// end.
pub proof fn law_written_string_reads_back(text: Seq<char>)
    requires
        encode_utf8(text).len() <= u64::MAX,
    ensures
        sievestring(encode_utf8(crate::command::literal(text)), 0, true) == Step::Done(
            text,
            encode_utf8(crate::command::literal(text)).len() as int,
        ),
{
    let n = encode_utf8(text).len();
    let written = crate::command::literal(text);
    reveal_strlit("{");
    reveal_strlit("+}\r\n");
    let open = "{"@;
    let close = "+}\r\n"@;
    lemma_decimal_bytes(n);
    lemma_encode_concat(open + decimal(n) + close, text);
    lemma_encode_concat(open + decimal(n), close);
    lemma_encode_concat(open, decimal(n));
    assert(is_ascii_chars(open));
    assert(is_ascii_chars(close));
    is_ascii_chars_encode_utf8(open);
    is_ascii_chars_encode_utf8(close);
    assert(encode_utf8(open) =~= seq![LBRACE]);
    assert(encode_utf8(close) =~= literal_close(true) + seq![0x0du8, 0x0au8]);
    let header = literal_header(n, true);
    assert(encode_utf8(open + decimal(n) + close) =~= header);
    assert(encode_utf8(written) =~= header + encode_utf8(text) + Seq::<u8>::empty());
    law_literal_reads_back(text, Seq::<u8>::empty(), true);
}

/// Cutting a text at its spaces loses nothing and leaves no space: there
/// is at least one piece, no piece holds a space, and the pieces with a
/// space between one and the next are the text.
pub proof fn law_split_joins_back(t: Seq<char>)
    ensures
        split_blank(t).len() >= 1,
        forall|p: int, k: int|
            0 <= p < split_blank(t).len() && 0 <= k < split_blank(t)[p].len() ==> (
            #[trigger] split_blank(t)[p][k]) != ' ',
        join_blank(split_blank(t)) == t,
    decreases t.len(),
{
    if t.len() > 0 {
        let before = split_blank(t.drop_last());
        let pieces = split_blank(t);
        let c = t.last();
        law_split_joins_back(t.drop_last());
        assert(t =~= t.drop_last().push(c));
        if c == ' ' {
            assert(pieces.drop_last() =~= before);
            assert(join_blank(pieces) =~= t);
            assert forall|p: int, k: int|
                0 <= p < pieces.len() && 0 <= k < pieces[p].len() implies (#[trigger] pieces[p][k])
                != ' ' by {
                assert(pieces[p] == before[p]);
            }
        } else {
            let last = before.last().push(c);
            assert(pieces.last() == last);
            assert(pieces.drop_last() =~= before.drop_last());
            if before.len() == 1 {
                assert(join_blank(pieces) =~= t);
            } else {
                assert(join_blank(before) == join_blank(before.drop_last()) + seq![' ']
                    + before.last());
                assert(join_blank(pieces) =~= join_blank(before).push(c));
            }
            assert forall|p: int, k: int|
                0 <= p < pieces.len() && 0 <= k < pieces[p].len() implies (#[trigger] pieces[p][k])
                != ' ' by {
                if p < pieces.len() - 1 {
                    assert(pieces[p] == before[p]);
                } else if k < before.last().len() {
                    assert(pieces[p][k] == before.last()[k]);
                }
            }
        }
    } else {
        assert(split_blank(t)[0] =~= Seq::<char>::empty());
    }
}

/// Two buffers that differ in the case of letters only.
pub open spec fn same_but_for_case(a: Seq<u8>, b: Seq<u8>) -> bool {
    a.len() == b.len() && forall|k: int| 0 <= k < a.len() ==> fold_case(#[trigger] a[k]) == fold_case(b[k])
}

/// A word that is read in any case of letters is read alike in two
/// buffers that differ in the case of letters only.
pub proof fn law_word_ignores_case(a: Seq<u8>, b: Seq<u8>, i: int, w: Seq<u8>)
    requires
        same_but_for_case(a, b),
        0 <= i <= a.len(),
    ensures
        word(a, i, w, true) == word(b, i, w, true),
{
    let available = if a.len() - i < w.len() {
        a.len() - i
    } else {
        w.len() as int
    };
    if exists|k: int| 0 <= k < available && !same_byte(#[trigger] a[i + k], w[k], true) {
        let k = choose|k: int| 0 <= k < available && !same_byte(#[trigger] a[i + k], w[k], true);
        assert(fold_case(a[i + k]) == fold_case(b[i + k]));
        assert(!same_byte(b[i + k], w[k], true));
    }
    if exists|k: int| 0 <= k < available && !same_byte(#[trigger] b[i + k], w[k], true) {
        let k = choose|k: int| 0 <= k < available && !same_byte(#[trigger] b[i + k], w[k], true);
        assert(fold_case(a[i + k]) == fold_case(b[i + k]));
        assert(!same_byte(a[i + k], w[k], true));
    }
}

} // verus!
