//! Encodings that the protocol borrows from elsewhere: UTF-8 text, decimal
//! numbers and base64.

use vstd::prelude::*;
use vstd::utf8::*;
use base64::Engine;

verus! {

/// The decimal digit that stands for `d`.
pub open spec fn digit(d: nat) -> char
    recommends
        d < 10,
{
    ((d + 48) as u8) as char
}

/// Decimal notation of `n`, without leading zeros.
pub open spec fn decimal(n: nat) -> Seq<char>
    decreases n,
{
    if n < 10 {
        seq![digit(n)]
    } else {
        decimal(n / 10).push(digit(n % 10))
    }
}

/// The base64 text of `data`, in the standard alphabet and with padding.
pub uninterp spec fn base64_text(data: Seq<u8>) -> Seq<char>;

/// The data that the base64 text `text` stands for, where it stands for any.
pub uninterp spec fn base64_data(text: Seq<char>) -> Option<Seq<u8>>;

/// Length of the base64 text of `len` bytes.
pub open spec fn base64_len(len: nat) -> nat {
    (len + 2) / 3 * 4
}

/// base64's `DecodeError`. The library hands it on and reads nothing in it.
#[verifier::external_type_specification]
#[verifier::external_body]
pub struct ExDecodeError(base64::DecodeError);

/// `core::str::from_utf8`: the text that `bytes` encode, which exists exactly
/// when they are well-formed UTF-8.
#[verifier::external_body]
pub(crate) fn utf8_text(bytes: &[u8]) -> (text: Option<&str>)
    ensures
        text is Some <==> valid_utf8(bytes@),
        text matches Some(t) ==> t@ == decode_utf8(bytes@),
{
    match core::str::from_utf8(bytes) {
        Ok(text) => Some(text),
        Err(_) => None,
    }
}

/// `String::push`: afterwards `text` is what it was, with `c` at its end.
#[verifier::external_body]
pub(crate) fn push_char(text: &mut String, c: char)
    ensures
        final(text)@ == old(text)@.push(c),
{
    text.push(c)
}

/// `itoa::Buffer::format` on a fresh buffer: the decimal notation of `n`,
/// as a string of its own.
#[verifier::external_body]
pub(crate) fn decimal_text(n: u64) -> (text: String)
    ensures
        text@ == decimal(n as nat),
{
    itoa::Buffer::new().format(n).to_owned()
}

/// `Engine::encode` of base64's `STANDARD` engine: the base64 text of
/// `data`. The call panics where the length of that text does not fit in
/// `usize`, which `requires` rules out.
#[verifier::external_body]
pub(crate) fn base64_encode(data: &[u8]) -> (text: String)
    requires
        base64_len(data@.len()) <= usize::MAX,
    ensures
        text@ == base64_text(data@),
{
    base64::engine::general_purpose::STANDARD.encode(data)
}

/// `Engine::decode` of base64's `STANDARD` engine: the data that `text`
/// stands for, or the engine's error where it stands for none.
#[verifier::external_body]
pub(crate) fn base64_decode(text: &str) -> (data: Result<Vec<u8>, base64::DecodeError>)
    ensures
        match data {
            Ok(bytes) => base64_data(text@) == Some(bytes@),
            Err(_) => base64_data(text@) is None,
        },
{
    base64::engine::general_purpose::STANDARD.decode(text)
}

} // verus!
