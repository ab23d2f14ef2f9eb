//! More bytes never change an outcome that is decided.
//!
//! A buffer grows as chunks arrive, and the whole of it is parsed again each
//! time. That is sound because the grammar never takes back what it has
//! said: where parsing at a position has come to a value or to a failure,
//! it comes to the same on every buffer that goes on from there. Only
//! "more bytes are needed" may turn into something else.

use vstd::prelude::*;
use vstd::string::*;
use crate::parser::grammar::{
    atom, blanks, byte, capability_name, code, crlf, extension_code, extension_data,
    extension_item, extension_more, extension_name, keyword, known_capability, known_code,
    lines_and_response, literal, literal_close, literal_len, number, optional_active,
    optional_code, optional_data, optional_string, quoted_body, quoted_string,
    response_authenticate, response_authenticate_complete, response_capability,
    response_getscript, response_info, response_listscripts, response_nobye, response_ok,
    response_oknobye, response_starttls, run, run_end, same_byte, script_line, sievestring,
    single_capability, spaced_string, string_line, unknown_capability, version, word, Atom,
    ByteClass, CapabilityName, Step, BACKSLASH, DQUOTE, LBRACE, LPAREN, RPAREN,
};
use crate::response::Tag;

verus! {

/// `after` is the outcome on a longer buffer of what had the outcome
/// `before` at `i` on a buffer of `len` bytes: a value lies within the
/// shorter buffer, and a decided outcome is the same on the longer one.
pub open spec fn kept<T>(before: Step<T>, after: Step<T>, i: int, len: int) -> bool {
    &&& before matches Step::Done(_, end) ==> i <= end <= len
    &&& !(before is Incomplete) ==> after == before
}

/// More bytes keep the outcome of reading a fixed word.
pub proof fn lemma_word(s: Seq<u8>, t: Seq<u8>, i: int, w: Seq<u8>, caseless: bool)
    requires
        s.is_prefix_of(t),
        0 <= i <= s.len(),
    ensures
        kept(word(s, i, w, caseless), word(t, i, w, caseless), i, s.len() as int),
{
    let available = if s.len() - i < w.len() {
        s.len() - i
    } else {
        w.len() as int
    };
    let more = if t.len() - i < w.len() {
        t.len() - i
    } else {
        w.len() as int
    };
    if exists|k: int| 0 <= k < available && !same_byte(#[trigger] s[i + k], w[k], caseless) {
        let k = choose|k: int| 0 <= k < available && !same_byte(#[trigger] s[i + k], w[k], caseless);
        assert(t[i + k] == s[i + k]);
    } else if available == w.len() {
        if exists|k: int| 0 <= k < more && !same_byte(#[trigger] t[i + k], w[k], caseless) {
            let k = choose|k: int| 0 <= k < more && !same_byte(#[trigger] t[i + k], w[k], caseless);
            assert(t[i + k] == s[i + k]);
        }
    }
}

/// More bytes keep the outcome of reading a given byte.
pub proof fn lemma_byte(s: Seq<u8>, t: Seq<u8>, i: int, b: u8)
    requires
        s.is_prefix_of(t),
        0 <= i <= s.len(),
    ensures
        kept(byte(s, i, b), byte(t, i, b), i, s.len() as int),
{
    if i < s.len() {
        assert(t[i] == s[i]);
    }
}

/// More bytes keep the outcome of reading the line break.
pub proof fn lemma_crlf(s: Seq<u8>, t: Seq<u8>, i: int)
    requires
        s.is_prefix_of(t),
        0 <= i <= s.len(),
    ensures
        kept(crlf(s, i), crlf(t, i), i, s.len() as int),
{
    lemma_word(s, t, i, seq![0x0du8, 0x0au8], false);
}

/// A run that ends within a buffer ends at the same place in every buffer
/// that goes on from there.
pub proof fn lemma_run_end_kept(s: Seq<u8>, t: Seq<u8>, i: int, class: ByteClass)
    requires
        s.is_prefix_of(t),
        0 <= i <= s.len(),
    ensures
        i <= run_end(s, i, class) <= s.len(),
        run_end(s, i, class) < s.len() ==> run_end(t, i, class) == run_end(s, i, class),
    decreases s.len() - i,
{
    if i < s.len() {
        assert(t[i] == s[i]);
        if class.admits(s[i]) {
            lemma_run_end_kept(s, t, i + 1, class);
        }
    }
}

/// More bytes keep the outcome of reading a run of bytes of one class.
pub proof fn lemma_run(s: Seq<u8>, t: Seq<u8>, i: int, class: ByteClass)
    requires
        s.is_prefix_of(t),
        0 <= i <= s.len(),
    ensures
        kept(run(s, i, class), run(t, i, class), i, s.len() as int),
        run(s, i, class) matches Step::Done(_, end) ==> i < end,
{
    lemma_run_end_kept(s, t, i, class);
}

/// More bytes keep the outcome of reading a number.
pub proof fn lemma_number(s: Seq<u8>, t: Seq<u8>, i: int)
    requires
        s.is_prefix_of(t),
        0 <= i <= s.len(),
    ensures
        kept(number(s, i), number(t, i), i, s.len() as int),
        number(s, i) matches Step::Done(_, end) ==> i < end,
{
    lemma_run(s, t, i, ByteClass::Digit);
    if let Step::Done(_, end) = run(s, i, ByteClass::Digit) {
        assert(s.subrange(i, end) =~= t.subrange(i, end));
    }
}

/// More bytes keep the outcome of reading the header of a literal.
pub proof fn lemma_literal_len(s: Seq<u8>, t: Seq<u8>, i: int, to_server: bool)
    requires
        s.is_prefix_of(t),
        0 <= i <= s.len(),
    ensures
        kept(literal_len(s, i, to_server), literal_len(t, i, to_server), i, s.len() as int),
        literal_len(s, i, to_server) matches Step::Done(_, end) ==> i < end,
{
    lemma_byte(s, t, i, LBRACE);
    if byte(s, i, LBRACE) is Done {
        lemma_number(s, t, i + 1);
        let length = number(s, i + 1);
        if length is Done {
            lemma_word(s, t, length.end(), literal_close(to_server), false);
            let close = word(s, length.end(), literal_close(to_server), false);
            if close is Done {
                lemma_crlf(s, t, close.end());
            }
        }
    }
}

/// More bytes keep the outcome of reading a literal.
pub proof fn lemma_literal(s: Seq<u8>, t: Seq<u8>, i: int, to_server: bool)
    requires
        s.is_prefix_of(t),
        0 <= i <= s.len(),
    ensures
        kept(literal(s, i, to_server), literal(t, i, to_server), i, s.len() as int),
        literal(s, i, to_server) matches Step::Done(_, end) ==> i < end,
{
    lemma_literal_len(s, t, i, to_server);
    let header = literal_len(s, i, to_server);
    if header is Done && s.len() - header.end() >= header.value() {
        let end = header.end() + header.value();
        assert(s.subrange(header.end(), end) =~= t.subrange(header.end(), end));
    }
}

/// More bytes keep the outcome of reading the inside of a quoted string.
pub proof fn lemma_quoted_body(s: Seq<u8>, t: Seq<u8>, i: int)
    requires
        s.is_prefix_of(t),
        0 <= i <= s.len(),
    ensures
        kept(quoted_body(s, i), quoted_body(t, i), i, s.len() as int),
        quoted_body(s, i) matches Step::Done(_, end) ==> i < end,
    decreases s.len() - i,
{
    if i < s.len() {
        assert(t[i] == s[i]);
        if s[i] == DQUOTE {
        } else if s[i] == BACKSLASH {
            if i + 1 < s.len() {
                assert(t[i + 1] == s[i + 1]);
                if s[i + 1] == DQUOTE || s[i + 1] == BACKSLASH {
                    lemma_quoted_body(s, t, i + 2);
                }
            }
        } else {
            lemma_quoted_body(s, t, i + 1);
        }
    }
}

/// More bytes keep the outcome of reading a quoted string.
pub proof fn lemma_quoted_string(s: Seq<u8>, t: Seq<u8>, i: int)
    requires
        s.is_prefix_of(t),
        0 <= i <= s.len(),
    ensures
        kept(quoted_string(s, i), quoted_string(t, i), i, s.len() as int),
        quoted_string(s, i) matches Step::Done(_, end) ==> i < end,
{
    lemma_byte(s, t, i, DQUOTE);
    if byte(s, i, DQUOTE) is Done {
        lemma_quoted_body(s, t, i + 1);
    }
}

/// More bytes keep the outcome of reading a string.
pub proof fn lemma_sievestring(s: Seq<u8>, t: Seq<u8>, i: int, to_server: bool)
    requires
        s.is_prefix_of(t),
        0 <= i <= s.len(),
    ensures
        kept(sievestring(s, i, to_server), sievestring(t, i, to_server), i, s.len() as int),
        sievestring(s, i, to_server) matches Step::Done(_, end) ==> i < end,
{
    lemma_literal(s, t, i, to_server);
    lemma_quoted_string(s, t, i);
}

/// More bytes keep the outcome of reading a word that stands for a value.
pub proof fn lemma_keyword<T>(
    s: Seq<u8>,
    t: Seq<u8>,
    i: int,
    w: &str,
    value: T,
    otherwise_s: Step<T>,
    otherwise_t: Step<T>,
)
    requires
        s.is_prefix_of(t),
        0 <= i <= s.len(),
        kept(otherwise_s, otherwise_t, i, s.len() as int),
    ensures
        kept(
            keyword(s, i, w, value, otherwise_s),
            keyword(t, i, w, value, otherwise_t),
            i,
            s.len() as int,
        ),
{
    lemma_word(s, t, i, w.spec_bytes(), true);
}

/// More bytes keep the outcome of reading the name of a defined response code.
pub proof fn lemma_atom(s: Seq<u8>, t: Seq<u8>, i: int)
    requires
        s.is_prefix_of(t),
        0 <= i <= s.len(),
    ensures
        kept(atom(s, i), atom(t, i), i, s.len() as int),
{
    let s14 = keyword(s, i, "TAG", Atom::Tag, Step::Fail);
    let t14 = keyword(t, i, "TAG", Atom::Tag, Step::Fail);
    lemma_keyword(s, t, i, "TAG", Atom::Tag, Step::Fail, Step::Fail);
    let s13 = keyword(s, i, "WARNINGS", Atom::Warnings, s14);
    let t13 = keyword(t, i, "WARNINGS", Atom::Warnings, t14);
    lemma_keyword(s, t, i, "WARNINGS", Atom::Warnings, s14, t14);
    let s12 = keyword(s, i, "ALREADYEXISTS", Atom::AlreadyExists, s13);
    let t12 = keyword(t, i, "ALREADYEXISTS", Atom::AlreadyExists, t13);
    lemma_keyword(s, t, i, "ALREADYEXISTS", Atom::AlreadyExists, s13, t13);
    let s11 = keyword(s, i, "NONEXISTENT", Atom::Nonexistent, s12);
    let t11 = keyword(t, i, "NONEXISTENT", Atom::Nonexistent, t12);
    lemma_keyword(s, t, i, "NONEXISTENT", Atom::Nonexistent, s12, t12);
    let s10 = keyword(s, i, "ACTIVE", Atom::Active, s11);
    let t10 = keyword(t, i, "ACTIVE", Atom::Active, t11);
    lemma_keyword(s, t, i, "ACTIVE", Atom::Active, s11, t11);
    let s9 = keyword(s, i, "TRYLATER", Atom::TryLater, s10);
    let t9 = keyword(t, i, "TRYLATER", Atom::TryLater, t10);
    lemma_keyword(s, t, i, "TRYLATER", Atom::TryLater, s10, t10);
    let s8 = keyword(s, i, "TRANSITION-NEEDED", Atom::TransitionNeeded, s9);
    let t8 = keyword(t, i, "TRANSITION-NEEDED", Atom::TransitionNeeded, t9);
    lemma_keyword(s, t, i, "TRANSITION-NEEDED", Atom::TransitionNeeded, s9, t9);
    let s7 = keyword(s, i, "REFERRAL", Atom::Referral, s8);
    let t7 = keyword(t, i, "REFERRAL", Atom::Referral, t8);
    lemma_keyword(s, t, i, "REFERRAL", Atom::Referral, s8, t8);
    let s6 = keyword(s, i, "SASL", Atom::Sasl, s7);
    let t6 = keyword(t, i, "SASL", Atom::Sasl, t7);
    lemma_keyword(s, t, i, "SASL", Atom::Sasl, s7, t7);
    let s5 = keyword(s, i, "QUOTA", Atom::Quota, s6);
    let t5 = keyword(t, i, "QUOTA", Atom::Quota, t6);
    lemma_keyword(s, t, i, "QUOTA", Atom::Quota, s6, t6);
    let s4 = keyword(s, i, "QUOTA/MAXSIZE", Atom::QuotaMaxSize, s5);
    let t4 = keyword(t, i, "QUOTA/MAXSIZE", Atom::QuotaMaxSize, t5);
    lemma_keyword(s, t, i, "QUOTA/MAXSIZE", Atom::QuotaMaxSize, s5, t5);
    let s3 = keyword(s, i, "QUOTA/MAXSCRIPTS", Atom::QuotaMaxScripts, s4);
    let t3 = keyword(t, i, "QUOTA/MAXSCRIPTS", Atom::QuotaMaxScripts, t4);
    lemma_keyword(s, t, i, "QUOTA/MAXSCRIPTS", Atom::QuotaMaxScripts, s4, t4);
    let s2 = keyword(s, i, "ENCRYPT-NEEDED", Atom::EncryptNeeded, s3);
    let t2 = keyword(t, i, "ENCRYPT-NEEDED", Atom::EncryptNeeded, t3);
    lemma_keyword(s, t, i, "ENCRYPT-NEEDED", Atom::EncryptNeeded, s3, t3);
    lemma_keyword(s, t, i, "AUTH-TOO-WEAK", Atom::AuthTooWeak, s2, t2);
}

/// More bytes keep the outcome of reading blanks and a string.
pub proof fn lemma_spaced_string(s: Seq<u8>, t: Seq<u8>, i: int)
    requires
        s.is_prefix_of(t),
        0 <= i <= s.len(),
    ensures
        kept(spaced_string(s, i), spaced_string(t, i), i, s.len() as int),
        spaced_string(s, i) matches Step::Done(_, end) ==> i < end,
{
    lemma_run(s, t, i, ByteClass::Blank);
    if let Step::Done(_, start) = blanks(s, i) {
        lemma_sievestring(s, t, start, false);
    }
}

/// More bytes keep the outcome of reading an item of extension data.
pub proof fn lemma_extension_item(s: Seq<u8>, t: Seq<u8>, i: int)
    requires
        s.is_prefix_of(t),
        0 <= i <= s.len(),
    ensures
        kept(extension_item(s, i), extension_item(t, i), i, s.len() as int),
        extension_item(s, i) matches Step::Done(_, end) ==> i < end,
    decreases s.len() - i, 0nat,
{
    lemma_sievestring(s, t, i, false);
    lemma_number(s, t, i);
    lemma_byte(s, t, i, LPAREN);
    if sievestring(s, i, false) is Fail && number(s, i) is Fail && i < s.len() {
        assert(t[i] == s[i]);
        if s[i] == LPAREN {
            lemma_extension_data(s, t, i + 1);
            if let Step::Done(_, end) = extension_data(s, i + 1) {
                lemma_byte(s, t, end, RPAREN);
            }
        }
    }
}

/// More bytes keep the outcome of reading extension data.
pub proof fn lemma_extension_data(s: Seq<u8>, t: Seq<u8>, i: int)
    requires
        s.is_prefix_of(t),
        0 <= i <= s.len(),
    ensures
        kept(extension_data(s, i), extension_data(t, i), i, s.len() as int),
        extension_data(s, i) matches Step::Done(_, end) ==> i < end,
    decreases s.len() - i, 2nat,
{
    lemma_extension_item(s, t, i);
    if let Step::Done(_, end) = extension_item(s, i) {
        lemma_extension_more(s, t, end);
    }
}

/// More bytes keep the outcome of reading the items after the first.
pub proof fn lemma_extension_more(s: Seq<u8>, t: Seq<u8>, i: int)
    requires
        s.is_prefix_of(t),
        0 <= i <= s.len(),
    ensures
        kept(extension_more(s, i), extension_more(t, i), i, s.len() as int),
    decreases s.len() - i, 1nat,
{
    lemma_run(s, t, i, ByteClass::Blank);
    if let Step::Done(_, start) = blanks(s, i) {
        lemma_extension_item(s, t, start);
        if let Step::Done(_, end) = extension_item(s, start) {
            lemma_extension_more(s, t, end);
        }
    }
}

/// More bytes keep the outcome of reading extension data that may be missing.
pub proof fn lemma_optional_data(s: Seq<u8>, t: Seq<u8>, i: int)
    requires
        s.is_prefix_of(t),
        0 <= i <= s.len(),
    ensures
        kept(optional_data(s, i), optional_data(t, i), i, s.len() as int),
{
    lemma_run(s, t, i, ByteClass::Blank);
    if let Step::Done(_, start) = blanks(s, i) {
        lemma_extension_data(s, t, start);
    }
}

/// More bytes keep the outcome of reading what follows the name of a defined response code.
pub proof fn lemma_known_code(s: Seq<u8>, t: Seq<u8>, i: int, name: Atom)
    requires
        s.is_prefix_of(t),
        0 <= i <= s.len(),
    ensures
        kept(known_code(s, i, name), known_code(t, i, name), i, s.len() as int),
{
    lemma_spaced_string(s, t, i);
}

/// More bytes keep the outcome of reading the name of an undefined response code.
pub proof fn lemma_extension_name(s: Seq<u8>, t: Seq<u8>, i: int)
    requires
        s.is_prefix_of(t),
        0 <= i <= s.len(),
    ensures
        kept(extension_name(s, i), extension_name(t, i), i, s.len() as int),
        extension_name(s, i) matches Step::Done(_, end) ==> i < end,
{
    lemma_sievestring(s, t, i, false);
    lemma_run(s, t, i, ByteClass::Name);
    if let Step::Done(_, end) = run(s, i, ByteClass::Name) {
        assert(s.subrange(i, end) =~= t.subrange(i, end));
    }
}

/// More bytes keep the outcome of reading an undefined response code.
pub proof fn lemma_extension_code(s: Seq<u8>, t: Seq<u8>, i: int)
    requires
        s.is_prefix_of(t),
        0 <= i <= s.len(),
    ensures
        kept(extension_code(s, i), extension_code(t, i), i, s.len() as int),
{
    lemma_extension_name(s, t, i);
    if let Step::Done(_, end) = extension_name(s, i) {
        lemma_optional_data(s, t, end);
    }
}

/// More bytes keep the outcome of reading a response code.
pub proof fn lemma_code(s: Seq<u8>, t: Seq<u8>, i: int)
    requires
        s.is_prefix_of(t),
        0 <= i <= s.len(),
    ensures
        kept(code(s, i), code(t, i), i, s.len() as int),
        code(s, i) matches Step::Done(_, end) ==> i < end,
{
    lemma_byte(s, t, i, LPAREN);
    if byte(s, i, LPAREN) is Done {
        lemma_atom(s, t, i + 1);
        lemma_extension_code(s, t, i + 1);
        if let Step::Done(name, end) = atom(s, i + 1) {
            lemma_known_code(s, t, end, name);
            if let Step::Done(_, after) = known_code(s, end, name) {
                lemma_byte(s, t, after, RPAREN);
            }
        }
        if let Step::Done(_, after) = extension_code(s, i + 1) {
            lemma_byte(s, t, after, RPAREN);
        }
    }
}

/// More bytes keep the outcome of reading a response code that may be missing.
pub proof fn lemma_optional_code(s: Seq<u8>, t: Seq<u8>, i: int)
    requires
        s.is_prefix_of(t),
        0 <= i <= s.len(),
    ensures
        kept(optional_code(s, i), optional_code(t, i), i, s.len() as int),
{
    lemma_run(s, t, i, ByteClass::Blank);
    if let Step::Done(_, start) = blanks(s, i) {
        lemma_code(s, t, start);
    }
}

/// More bytes keep the outcome of reading a string that may be missing.
pub proof fn lemma_optional_string(s: Seq<u8>, t: Seq<u8>, i: int)
    requires
        s.is_prefix_of(t),
        0 <= i <= s.len(),
    ensures
        kept(optional_string(s, i), optional_string(t, i), i, s.len() as int),
{
    lemma_run(s, t, i, ByteClass::Blank);
    if let Step::Done(_, start) = blanks(s, i) {
        lemma_sievestring(s, t, start, false);
    }
}

/// More bytes keep the outcome of reading what follows the tag of a response line.
pub proof fn lemma_response_info(s: Seq<u8>, t: Seq<u8>, i: int)
    requires
        s.is_prefix_of(t),
        0 <= i <= s.len(),
    ensures
        kept(response_info(s, i), response_info(t, i), i, s.len() as int),
        response_info(s, i) matches Step::Done(_, end) ==> i < end,
{
    lemma_optional_code(s, t, i);
    if let Step::Done(_, after_code) = optional_code(s, i) {
        lemma_optional_string(s, t, after_code);
        if let Step::Done(_, after_human) = optional_string(s, after_code) {
            lemma_crlf(s, t, after_human);
        }
    }
}

/// More bytes keep the outcome of reading a response line with the tag `OK`.
pub proof fn lemma_response_ok(s: Seq<u8>, t: Seq<u8>, i: int)
    requires
        s.is_prefix_of(t),
        0 <= i <= s.len(),
    ensures
        kept(response_ok(s, i), response_ok(t, i), i, s.len() as int),
        response_ok(s, i) matches Step::Done(_, end) ==> i < end,
{
    lemma_word(s, t, i, "OK".spec_bytes(), true);
    if let Step::Done(_, after) = word(s, i, "OK".spec_bytes(), true) {
        lemma_response_info(s, t, after);
    }
}

/// More bytes keep the outcome of reading a response line with the tag `NO` or `BYE`.
pub proof fn lemma_response_nobye(s: Seq<u8>, t: Seq<u8>, i: int)
    requires
        s.is_prefix_of(t),
        0 <= i <= s.len(),
    ensures
        kept(response_nobye(s, i), response_nobye(t, i), i, s.len() as int),
        response_nobye(s, i) matches Step::Done(_, end) ==> i < end,
{
    let bye_s = keyword(s, i, "BYE", Tag::Bye, Step::Fail);
    let bye_t = keyword(t, i, "BYE", Tag::Bye, Step::Fail);
    lemma_keyword(s, t, i, "BYE", Tag::Bye, Step::Fail, Step::Fail);
    lemma_keyword(s, t, i, "NO", Tag::No, bye_s, bye_t);
    if let Step::Done(_, after) = keyword(s, i, "NO", Tag::No, bye_s) {
        lemma_response_info(s, t, after);
    }
}

/// More bytes keep the outcome of reading a response line.
pub proof fn lemma_response_oknobye(s: Seq<u8>, t: Seq<u8>, i: int)
    requires
        s.is_prefix_of(t),
        0 <= i <= s.len(),
    ensures
        kept(response_oknobye(s, i), response_oknobye(t, i), i, s.len() as int),
        response_oknobye(s, i) matches Step::Done(_, end) ==> i < end,
{
    lemma_response_ok(s, t, i);
    lemma_response_nobye(s, t, i);
}

/// More bytes keep the outcome of reading a version.
pub proof fn lemma_version(s: Seq<u8>, t: Seq<u8>, i: int)
    requires
        s.is_prefix_of(t),
        0 <= i <= s.len(),
    ensures
        kept(version(s, i), version(t, i), i, s.len() as int),
{
    lemma_byte(s, t, i, DQUOTE);
    if byte(s, i, DQUOTE) is Done {
        lemma_number(s, t, i + 1);
        if let Step::Done(_, after_major) = number(s, i + 1) {
            lemma_byte(s, t, after_major, 0x2e);
            if byte(s, after_major, 0x2e) is Done {
                lemma_number(s, t, after_major + 1);
                if let Step::Done(_, after_minor) = number(s, after_major + 1) {
                    lemma_byte(s, t, after_minor, DQUOTE);
                }
            }
        }
    }
}

/// More bytes keep the outcome of reading the name of a defined capability.
pub proof fn lemma_capability_name(s: Seq<u8>, t: Seq<u8>, i: int)
    requires
        s.is_prefix_of(t),
        0 <= i <= s.len(),
    ensures
        kept(capability_name(s, i), capability_name(t, i), i, s.len() as int),
{
    let s9 = keyword(s, i, "\"OWNER\"", CapabilityName::Owner, Step::Fail);
    let t9 = keyword(t, i, "\"OWNER\"", CapabilityName::Owner, Step::Fail);
    lemma_keyword(s, t, i, "\"OWNER\"", CapabilityName::Owner, Step::Fail, Step::Fail);
    let s8 = keyword(s, i, "\"VERSION\"", CapabilityName::Version, s9);
    let t8 = keyword(t, i, "\"VERSION\"", CapabilityName::Version, t9);
    lemma_keyword(s, t, i, "\"VERSION\"", CapabilityName::Version, s9, t9);
    let s7 = keyword(s, i, "\"LANGUAGE\"", CapabilityName::Language, s8);
    let t7 = keyword(t, i, "\"LANGUAGE\"", CapabilityName::Language, t8);
    lemma_keyword(s, t, i, "\"LANGUAGE\"", CapabilityName::Language, s8, t8);
    let s6 = keyword(s, i, "\"STARTTLS\"", CapabilityName::StartTls, s7);
    let t6 = keyword(t, i, "\"STARTTLS\"", CapabilityName::StartTls, t7);
    lemma_keyword(s, t, i, "\"STARTTLS\"", CapabilityName::StartTls, s7, t7);
    let s5 = keyword(s, i, "\"NOTIFY\"", CapabilityName::Notify, s6);
    let t5 = keyword(t, i, "\"NOTIFY\"", CapabilityName::Notify, t6);
    lemma_keyword(s, t, i, "\"NOTIFY\"", CapabilityName::Notify, s6, t6);
    let s4 = keyword(s, i, "\"MAXREDIRECTS\"", CapabilityName::MaxRedirects, s5);
    let t4 = keyword(t, i, "\"MAXREDIRECTS\"", CapabilityName::MaxRedirects, t5);
    lemma_keyword(s, t, i, "\"MAXREDIRECTS\"", CapabilityName::MaxRedirects, s5, t5);
    let s3 = keyword(s, i, "\"SIEVE\"", CapabilityName::Sieve, s4);
    let t3 = keyword(t, i, "\"SIEVE\"", CapabilityName::Sieve, t4);
    lemma_keyword(s, t, i, "\"SIEVE\"", CapabilityName::Sieve, s4, t4);
    let s2 = keyword(s, i, "\"SASL\"", CapabilityName::Sasl, s3);
    let t2 = keyword(t, i, "\"SASL\"", CapabilityName::Sasl, t3);
    lemma_keyword(s, t, i, "\"SASL\"", CapabilityName::Sasl, s3, t3);
    lemma_keyword(s, t, i, "\"IMPLEMENTATION\"", CapabilityName::Implementation, s2, t2);
}

/// More bytes keep the outcome of reading what follows the name of a defined capability.
pub proof fn lemma_known_capability(s: Seq<u8>, t: Seq<u8>, i: int, name: CapabilityName)
    requires
        s.is_prefix_of(t),
        0 <= i <= s.len(),
    ensures
        kept(known_capability(s, i, name), known_capability(t, i, name), i, s.len() as int),
{
    lemma_spaced_string(s, t, i);
    lemma_run(s, t, i, ByteClass::Blank);
    if let Step::Done(_, start) = blanks(s, i) {
        lemma_version(s, t, start);
    }
}

/// More bytes keep the outcome of reading an undefined capability.
pub proof fn lemma_unknown_capability(s: Seq<u8>, t: Seq<u8>, i: int)
    requires
        s.is_prefix_of(t),
        0 <= i <= s.len(),
    ensures
        kept(unknown_capability(s, i), unknown_capability(t, i), i, s.len() as int),
{
    lemma_quoted_string(s, t, i);
    if let Step::Done(_, end) = quoted_string(s, i) {
        lemma_optional_string(s, t, end);
    }
}

/// More bytes keep the outcome of reading a line of a capability announcement.
pub proof fn lemma_single_capability(s: Seq<u8>, t: Seq<u8>, i: int)
    requires
        s.is_prefix_of(t),
        0 <= i <= s.len(),
    ensures
        kept(single_capability(s, i), single_capability(t, i), i, s.len() as int),
        single_capability(s, i) matches Step::Done(_, end) ==> i < end,
{
    lemma_capability_name(s, t, i);
    lemma_unknown_capability(s, t, i);
    if let Step::Done(name, end) = capability_name(s, i) {
        lemma_known_capability(s, t, end, name);
        if let Step::Done(_, after) = known_capability(s, end, name) {
            lemma_crlf(s, t, after);
        }
    }
    if let Step::Done(_, after) = unknown_capability(s, i) {
        lemma_crlf(s, t, after);
    }
}

/// A kind of line of which more bytes never change a decided outcome.
pub open spec fn stable<T>(line: spec_fn(Seq<u8>, int) -> Step<T>) -> bool {
    forall|s: Seq<u8>, t: Seq<u8>, i: int|
        #![trigger line(s, i), line(t, i)]
        s.is_prefix_of(t) && 0 <= i <= s.len() ==> kept(line(s, i), line(t, i), i, s.len() as int)
}

/// More bytes keep the outcome of reading lines of a stable kind and the response line after them.
pub proof fn lemma_lines_and_response<T>(
    s: Seq<u8>,
    t: Seq<u8>,
    i: int,
    line: spec_fn(Seq<u8>, int) -> Step<T>,
)
    requires
        s.is_prefix_of(t),
        0 <= i <= s.len(),
        stable(line),
    ensures
        kept(
            lines_and_response(s, i, line),
            lines_and_response(t, i, line),
            i,
            s.len() as int,
        ),
    decreases s.len() - i,
{
    assert(kept(line(s, i), line(t, i), i, s.len() as int));
    lemma_response_oknobye(s, t, i);
    if let Step::Done(_, next) = line(s, i) {
        if i < next {
            lemma_lines_and_response(s, t, next, line);
        }
    }
}

/// More bytes keep the outcome of reading a capability announcement.
pub proof fn lemma_response_capability(s: Seq<u8>, t: Seq<u8>, i: int)
    requires
        s.is_prefix_of(t),
        0 <= i <= s.len(),
    ensures
        kept(response_capability(s, i), response_capability(t, i), i, s.len() as int),
{
    let line = |s: Seq<u8>, i: int| single_capability(s, i);
    assert forall|a: Seq<u8>, b: Seq<u8>, k: int|
        #![trigger line(a, k), line(b, k)]
        a.is_prefix_of(b) && 0 <= k <= a.len() implies kept(
        line(a, k),
        line(b, k),
        k,
        a.len() as int,
    ) by {
        lemma_single_capability(a, b, k);
    }
    lemma_lines_and_response(s, t, i, line);
}

/// More bytes keep the outcome of reading the word `ACTIVE` that may be missing.
pub proof fn lemma_optional_active(s: Seq<u8>, t: Seq<u8>, i: int)
    requires
        s.is_prefix_of(t),
        0 <= i <= s.len(),
    ensures
        kept(optional_active(s, i), optional_active(t, i), i, s.len() as int),
{
    lemma_run(s, t, i, ByteClass::Blank);
    if let Step::Done(_, start) = blanks(s, i) {
        lemma_word(s, t, start, "ACTIVE".spec_bytes(), true);
    }
}

/// More bytes keep the outcome of reading a line of a list of scripts.
pub proof fn lemma_script_line(s: Seq<u8>, t: Seq<u8>, i: int)
    requires
        s.is_prefix_of(t),
        0 <= i <= s.len(),
    ensures
        kept(script_line(s, i), script_line(t, i), i, s.len() as int),
{
    lemma_sievestring(s, t, i, false);
    if let Step::Done(_, end) = sievestring(s, i, false) {
        lemma_optional_active(s, t, end);
        if let Step::Done(_, after) = optional_active(s, end) {
            lemma_crlf(s, t, after);
        }
    }
}

/// More bytes keep the outcome of reading a list of scripts.
pub proof fn lemma_response_listscripts(s: Seq<u8>, t: Seq<u8>, i: int)
    requires
        s.is_prefix_of(t),
        0 <= i <= s.len(),
    ensures
        kept(response_listscripts(s, i), response_listscripts(t, i), i, s.len() as int),
{
    let line = |s: Seq<u8>, i: int| script_line(s, i);
    assert forall|a: Seq<u8>, b: Seq<u8>, k: int|
        #![trigger line(a, k), line(b, k)]
        a.is_prefix_of(b) && 0 <= k <= a.len() implies kept(
        line(a, k),
        line(b, k),
        k,
        a.len() as int,
    ) by {
        lemma_script_line(a, b, k);
    }
    lemma_lines_and_response(s, t, i, line);
}

/// More bytes keep the outcome of reading a string and the line break.
pub proof fn lemma_string_line(s: Seq<u8>, t: Seq<u8>, i: int)
    requires
        s.is_prefix_of(t),
        0 <= i <= s.len(),
    ensures
        kept(string_line(s, i), string_line(t, i), i, s.len() as int),
{
    lemma_sievestring(s, t, i, false);
    if let Step::Done(_, end) = sievestring(s, i, false) {
        lemma_crlf(s, t, end);
    }
}

/// More bytes keep the outcome of reading the answer to `GETSCRIPT`.
pub proof fn lemma_response_getscript(s: Seq<u8>, t: Seq<u8>, i: int)
    requires
        s.is_prefix_of(t),
        0 <= i <= s.len(),
    ensures
        kept(response_getscript(s, i), response_getscript(t, i), i, s.len() as int),
{
    lemma_string_line(s, t, i);
    lemma_response_nobye(s, t, i);
    if let Step::Done(_, end) = string_line(s, i) {
        lemma_response_ok(s, t, end);
    }
}

/// More bytes keep the outcome of reading a line of an authentication exchange.
pub proof fn lemma_response_authenticate(s: Seq<u8>, t: Seq<u8>, i: int)
    requires
        s.is_prefix_of(t),
        0 <= i <= s.len(),
    ensures
        kept(response_authenticate(s, i), response_authenticate(t, i), i, s.len() as int),
{
    lemma_string_line(s, t, i);
    lemma_response_oknobye(s, t, i);
}

/// More bytes keep the outcome of reading the answer to `STARTTLS` and the announcement after it.
pub proof fn lemma_response_starttls(s: Seq<u8>, t: Seq<u8>, i: int)
    requires
        s.is_prefix_of(t),
        0 <= i <= s.len(),
    ensures
        kept(response_starttls(s, i), response_starttls(t, i), i, s.len() as int),
{
    lemma_response_ok(s, t, i);
    lemma_response_nobye(s, t, i);
    if let Step::Done(_, end) = response_ok(s, i) {
        lemma_response_capability(s, t, end);
    }
}

/// More bytes keep the outcome of reading the end of an authentication exchange.
pub proof fn lemma_response_authenticate_complete(s: Seq<u8>, t: Seq<u8>, i: int)
    requires
        s.is_prefix_of(t),
        0 <= i <= s.len(),
    ensures
        kept(
            response_authenticate_complete(s, i),
            response_authenticate_complete(t, i),
            i,
            s.len() as int,
        ),
{
    lemma_response_ok(s, t, i);
    lemma_response_nobye(s, t, i);
    if let Step::Done(_, end) = response_ok(s, i) {
        lemma_response_capability(s, t, end);
    }
}

/// Response lines are of a stable kind.
pub proof fn lemma_stable_response_oknobye()
    ensures
        stable(|s: Seq<u8>, i: int| response_oknobye(s, i)),
{
    let grammar = |s: Seq<u8>, i: int| response_oknobye(s, i);
    assert forall|a: Seq<u8>, b: Seq<u8>, k: int|
        #![trigger grammar(a, k), grammar(b, k)]
        a.is_prefix_of(b) && 0 <= k <= a.len() implies kept(
        grammar(a, k),
        grammar(b, k),
        k,
        a.len() as int,
    ) by {
        lemma_response_oknobye(a, b, k);
    }
}

/// Response lines with the tag `NO` or `BYE` are of a stable kind.
pub proof fn lemma_stable_response_nobye()
    ensures
        stable(|s: Seq<u8>, i: int| response_nobye(s, i)),
{
    let grammar = |s: Seq<u8>, i: int| response_nobye(s, i);
    assert forall|a: Seq<u8>, b: Seq<u8>, k: int|
        #![trigger grammar(a, k), grammar(b, k)]
        a.is_prefix_of(b) && 0 <= k <= a.len() implies kept(
        grammar(a, k),
        grammar(b, k),
        k,
        a.len() as int,
    ) by {
        lemma_response_nobye(a, b, k);
    }
}

/// Capability announcements are of a stable kind.
pub proof fn lemma_stable_response_capability()
    ensures
        stable(|s: Seq<u8>, i: int| response_capability(s, i)),
{
    let grammar = |s: Seq<u8>, i: int| response_capability(s, i);
    assert forall|a: Seq<u8>, b: Seq<u8>, k: int|
        #![trigger grammar(a, k), grammar(b, k)]
        a.is_prefix_of(b) && 0 <= k <= a.len() implies kept(
        grammar(a, k),
        grammar(b, k),
        k,
        a.len() as int,
    ) by {
        lemma_response_capability(a, b, k);
    }
}

/// Lists of scripts are of a stable kind.
pub proof fn lemma_stable_response_listscripts()
    ensures
        stable(|s: Seq<u8>, i: int| response_listscripts(s, i)),
{
    let grammar = |s: Seq<u8>, i: int| response_listscripts(s, i);
    assert forall|a: Seq<u8>, b: Seq<u8>, k: int|
        #![trigger grammar(a, k), grammar(b, k)]
        a.is_prefix_of(b) && 0 <= k <= a.len() implies kept(
        grammar(a, k),
        grammar(b, k),
        k,
        a.len() as int,
    ) by {
        lemma_response_listscripts(a, b, k);
    }
}

/// Answers to `GETSCRIPT` are of a stable kind.
pub proof fn lemma_stable_response_getscript()
    ensures
        stable(|s: Seq<u8>, i: int| response_getscript(s, i)),
{
    let grammar = |s: Seq<u8>, i: int| response_getscript(s, i);
    assert forall|a: Seq<u8>, b: Seq<u8>, k: int|
        #![trigger grammar(a, k), grammar(b, k)]
        a.is_prefix_of(b) && 0 <= k <= a.len() implies kept(
        grammar(a, k),
        grammar(b, k),
        k,
        a.len() as int,
    ) by {
        lemma_response_getscript(a, b, k);
    }
}

/// Lines of an authentication exchange are of a stable kind.
pub proof fn lemma_stable_response_authenticate()
    ensures
        stable(|s: Seq<u8>, i: int| response_authenticate(s, i)),
{
    let grammar = |s: Seq<u8>, i: int| response_authenticate(s, i);
    assert forall|a: Seq<u8>, b: Seq<u8>, k: int|
        #![trigger grammar(a, k), grammar(b, k)]
        a.is_prefix_of(b) && 0 <= k <= a.len() implies kept(
        grammar(a, k),
        grammar(b, k),
        k,
        a.len() as int,
    ) by {
        lemma_response_authenticate(a, b, k);
    }
}

} // verus!
