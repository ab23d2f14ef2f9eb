//! Response codes and response lines.

use vstd::prelude::*;
use vstd::string::*;
use vstd::slice::slice_subrange;
use crate::parser::grammar;
use crate::parser::grammar::{Atom, ByteClass, Step};
use crate::parser::strings::{sievestring, text};
use crate::parser::tokens::{byte, crlf, number, run, word};
use crate::parser::ParseResult;
use crate::response::{
    ExtensionItem, ExtensionItemView, Quota, Response, ResponseCode, ResponseInfo, Tag,
};

verus! {

/// Reads the name of a defined response code at `pos`.
pub fn atom(input: &[u8], pos: usize) -> (result: ParseResult<Atom>)
    requires
        pos <= input.len(),
    ensures
        result@ == grammar::atom(input@, pos as int),
        result matches ParseResult::Success(_, next) ==> pos <= next <= input.len(),
{
    match word(input, pos, "AUTH-TOO-WEAK", true) {
        ParseResult::Success(_, end) => return ParseResult::Success(Atom::AuthTooWeak, end),
        ParseResult::Incomplete => return ParseResult::Incomplete,
        ParseResult::Error => {},
    }
    match word(input, pos, "ENCRYPT-NEEDED", true) {
        ParseResult::Success(_, end) => return ParseResult::Success(Atom::EncryptNeeded, end),
        ParseResult::Incomplete => return ParseResult::Incomplete,
        ParseResult::Error => {},
    }
    match word(input, pos, "QUOTA/MAXSCRIPTS", true) {
        ParseResult::Success(_, end) => return ParseResult::Success(Atom::QuotaMaxScripts, end),
        ParseResult::Incomplete => return ParseResult::Incomplete,
        ParseResult::Error => {},
    }
    match word(input, pos, "QUOTA/MAXSIZE", true) {
        ParseResult::Success(_, end) => return ParseResult::Success(Atom::QuotaMaxSize, end),
        ParseResult::Incomplete => return ParseResult::Incomplete,
        ParseResult::Error => {},
    }
    match word(input, pos, "QUOTA", true) {
        ParseResult::Success(_, end) => return ParseResult::Success(Atom::Quota, end),
        ParseResult::Incomplete => return ParseResult::Incomplete,
        ParseResult::Error => {},
    }
    match word(input, pos, "SASL", true) {
        ParseResult::Success(_, end) => return ParseResult::Success(Atom::Sasl, end),
        ParseResult::Incomplete => return ParseResult::Incomplete,
        ParseResult::Error => {},
    }
    match word(input, pos, "REFERRAL", true) {
        ParseResult::Success(_, end) => return ParseResult::Success(Atom::Referral, end),
        ParseResult::Incomplete => return ParseResult::Incomplete,
        ParseResult::Error => {},
    }
    match word(input, pos, "TRANSITION-NEEDED", true) {
        ParseResult::Success(_, end) => return ParseResult::Success(Atom::TransitionNeeded, end),
        ParseResult::Incomplete => return ParseResult::Incomplete,
        ParseResult::Error => {},
    }
    match word(input, pos, "TRYLATER", true) {
        ParseResult::Success(_, end) => return ParseResult::Success(Atom::TryLater, end),
        ParseResult::Incomplete => return ParseResult::Incomplete,
        ParseResult::Error => {},
    }
    match word(input, pos, "ACTIVE", true) {
        ParseResult::Success(_, end) => return ParseResult::Success(Atom::Active, end),
        ParseResult::Incomplete => return ParseResult::Incomplete,
        ParseResult::Error => {},
    }
    match word(input, pos, "NONEXISTENT", true) {
        ParseResult::Success(_, end) => return ParseResult::Success(Atom::Nonexistent, end),
        ParseResult::Incomplete => return ParseResult::Incomplete,
        ParseResult::Error => {},
    }
    match word(input, pos, "ALREADYEXISTS", true) {
        ParseResult::Success(_, end) => return ParseResult::Success(Atom::AlreadyExists, end),
        ParseResult::Incomplete => return ParseResult::Incomplete,
        ParseResult::Error => {},
    }
    match word(input, pos, "WARNINGS", true) {
        ParseResult::Success(_, end) => return ParseResult::Success(Atom::Warnings, end),
        ParseResult::Incomplete => return ParseResult::Incomplete,
        ParseResult::Error => {},
    }
    match word(input, pos, "TAG", true) {
        ParseResult::Success(_, end) => ParseResult::Success(Atom::Tag, end),
        ParseResult::Incomplete => ParseResult::Incomplete,
        ParseResult::Error => ParseResult::Error,
    }
}

/// Reads blanks and a string at `pos`.
pub fn spaced_string(input: &[u8], pos: usize) -> (result: ParseResult<String>)
    requires
        pos <= input.len(),
    ensures
        result@ == grammar::spaced_string(input@, pos as int),
        result matches ParseResult::Success(_, next) ==> pos < next <= input.len(),
{
    match run(input, pos, ByteClass::Blank) {
        ParseResult::Success(_, start) => sievestring(input, start, false),
        ParseResult::Incomplete => ParseResult::Incomplete,
        ParseResult::Error => ParseResult::Error,
    }
}

/// Items in front of items in front of a rest are their concatenation in
/// front of the rest.
pub proof fn lemma_items_before_twice<T>(a: Seq<T>, b: Seq<T>, rest: Step<Seq<T>>)
    ensures
        grammar::items_before(a, grammar::items_before(b, rest)) == grammar::items_before(
            a + b,
            rest,
        ),
{
    if let Step::Done(more, end) = rest {
        assert(a + (b + more) =~= (a + b) + more);
    }
}

/// Reads one item of extension data at `pos`.
pub fn extension_item(input: &[u8], pos: usize) -> (result: ParseResult<ExtensionItem>)
    requires
        pos <= input.len(),
    ensures
        result@ == grammar::extension_item(input@, pos as int),
        result matches ParseResult::Success(_, next) ==> pos < next <= input.len(),
    decreases input.len() - pos, 0nat,
{
    match sievestring(input, pos, false) {
        ParseResult::Success(t, end) => return ParseResult::Success(ExtensionItem::String(t), end),
        ParseResult::Incomplete => return ParseResult::Incomplete,
        ParseResult::Error => {},
    }
    match number(input, pos) {
        ParseResult::Success(n, end) => return ParseResult::Success(ExtensionItem::Number(n), end),
        ParseResult::Incomplete => return ParseResult::Incomplete,
        ParseResult::Error => {},
    }
    if pos < input.len() && input[pos] == grammar::LPAREN {
        match extension_data(input, pos + 1) {
            ParseResult::Success(items, end) => match byte(input, end, grammar::RPAREN) {
                ParseResult::Success(_, after) => {
                    proof {
                        ExtensionItem::lemma_list_view(ExtensionItem::ExtensionData(items));
                    }
                    ParseResult::Success(ExtensionItem::ExtensionData(items), after)
                },
                ParseResult::Incomplete => ParseResult::Incomplete,
                ParseResult::Error => ParseResult::Error,
            },
            ParseResult::Incomplete => ParseResult::Incomplete,
            ParseResult::Error => ParseResult::Error,
        }
    } else if pos < input.len() {
        ParseResult::Error
    } else {
        ParseResult::Incomplete
    }
}

/// Reads one or more items of extension data at `pos`.
pub fn extension_data(input: &[u8], pos: usize) -> (result: ParseResult<Vec<ExtensionItem>>)
    requires
        pos <= input.len(),
    ensures
        result@ == grammar::extension_data(input@, pos as int),
        result matches ParseResult::Success(_, next) ==> pos < next <= input.len(),
    decreases input.len() - pos, 2nat,
{
    let (first, end) = match extension_item(input, pos) {
        ParseResult::Success(first, end) => (first, end),
        ParseResult::Incomplete => {
            return ParseResult::Incomplete;
        },
        ParseResult::Error => {
            return ParseResult::Error;
        },
    };
    let mut items: Vec<ExtensionItem> = Vec::new();
    items.push(first);
    let mut at: usize = end;
    assert(items.deep_view() =~= seq![first@]);
    loop
        invariant
            pos < at <= input.len(),
            grammar::extension_data(input@, pos as int) == grammar::items_before(
                items.deep_view(),
                grammar::extension_more(input@, at as int),
            ),
        decreases input.len() - at,
    {
        let start = match run(input, at, ByteClass::Blank) {
            ParseResult::Success(_, start) => start,
            ParseResult::Incomplete => {
                return ParseResult::Incomplete;
            },
            ParseResult::Error => {
                assert(items.deep_view() + Seq::<ExtensionItemView>::empty() =~= items.deep_view());
                return ParseResult::Success(items, at);
            },
        };
        match extension_item(input, start) {
            ParseResult::Success(item, end) => {
                proof {
                    lemma_items_before_twice(
                        items.deep_view(),
                        seq![item@],
                        grammar::extension_more(input@, end as int),
                    );
                }
                let ghost before = items.deep_view();
                items.push(item);
                assert(items.deep_view() =~= before + seq![item@]);
                at = end;
            },
            ParseResult::Incomplete => {
                return ParseResult::Incomplete;
            },
            ParseResult::Error => {
                assert(items.deep_view() + Seq::<ExtensionItemView>::empty() =~= items.deep_view());
                return ParseResult::Success(items, at);
            },
        }
    }
}

/// Reads blanks and extension data at `pos`, or nothing.
pub fn optional_data(input: &[u8], pos: usize) -> (result: ParseResult<Option<Vec<ExtensionItem>>>)
    requires
        pos <= input.len(),
    ensures
        result@ == grammar::optional_data(input@, pos as int),
        result matches ParseResult::Success(_, next) ==> pos <= next <= input.len(),
{
    match run(input, pos, ByteClass::Blank) {
        ParseResult::Success(_, start) => match extension_data(input, start) {
            ParseResult::Success(items, end) => ParseResult::Success(Some(items), end),
            ParseResult::Incomplete => ParseResult::Incomplete,
            ParseResult::Error => ParseResult::Success(None, pos),
        },
        ParseResult::Incomplete => ParseResult::Incomplete,
        ParseResult::Error => ParseResult::Success(None, pos),
    }
}

/// Reads what follows the name of a defined response code.
pub fn known_code(input: &[u8], pos: usize, name: Atom) -> (result: ParseResult<ResponseCode>)
    requires
        pos <= input.len(),
    ensures
        result@ == grammar::known_code(input@, pos as int, name),
        result matches ParseResult::Success(_, next) ==> pos <= next <= input.len(),
{
    match name {
        Atom::AuthTooWeak => ParseResult::Success(ResponseCode::AuthTooWeak, pos),
        Atom::EncryptNeeded => ParseResult::Success(ResponseCode::EncryptNeeded, pos),
        Atom::QuotaMaxScripts => ParseResult::Success(ResponseCode::Quota(Quota::MaxScripts), pos),
        Atom::QuotaMaxSize => ParseResult::Success(ResponseCode::Quota(Quota::MaxSize), pos),
        Atom::Quota => ParseResult::Success(ResponseCode::Quota(Quota::Unspecified), pos),
        Atom::Sasl => match spaced_string(input, pos) {
            ParseResult::Success(t, end) => ParseResult::Success(ResponseCode::Sasl(t), end),
            ParseResult::Incomplete => ParseResult::Incomplete,
            ParseResult::Error => ParseResult::Error,
        },
        Atom::Referral => match spaced_string(input, pos) {
            ParseResult::Success(t, end) => ParseResult::Success(ResponseCode::Referral(t), end),
            ParseResult::Incomplete => ParseResult::Incomplete,
            ParseResult::Error => ParseResult::Error,
        },
        Atom::TransitionNeeded => ParseResult::Success(ResponseCode::TransitionNeeded, pos),
        Atom::TryLater => ParseResult::Success(ResponseCode::TryLater, pos),
        Atom::Active => ParseResult::Success(ResponseCode::Active, pos),
        Atom::Nonexistent => ParseResult::Success(ResponseCode::Nonexistent, pos),
        Atom::AlreadyExists => ParseResult::Success(ResponseCode::AlreadyExists, pos),
        Atom::Warnings => ParseResult::Success(ResponseCode::Warnings, pos),
        Atom::Tag => match spaced_string(input, pos) {
            ParseResult::Success(t, end) => ParseResult::Success(ResponseCode::Tag(t), end),
            ParseResult::Incomplete => ParseResult::Incomplete,
            ParseResult::Error => ParseResult::Error,
        },
    }
}

/// Reads a response code that the protocol does not define.
pub fn extension_code(input: &[u8], pos: usize) -> (result: ParseResult<ResponseCode>)
    requires
        pos <= input.len(),
    ensures
        result@ == grammar::extension_code(input@, pos as int),
        result matches ParseResult::Success(_, next) ==> pos < next <= input.len(),
{
    let named = match sievestring(input, pos, false) {
        ParseResult::Error => match run(input, pos, ByteClass::Name) {
            ParseResult::Success(_, end) => text(slice_subrange(input, pos, end), end),
            ParseResult::Incomplete => ParseResult::Incomplete,
            ParseResult::Error => ParseResult::Error,
        },
        other => other,
    };
    match named {
        ParseResult::Success(name, end) => match optional_data(input, end) {
            ParseResult::Success(data, after) => ParseResult::Success(
                ResponseCode::Extension { name, data },
                after,
            ),
            ParseResult::Incomplete => ParseResult::Incomplete,
            ParseResult::Error => ParseResult::Error,
        },
        ParseResult::Incomplete => ParseResult::Incomplete,
        ParseResult::Error => ParseResult::Error,
    }
}

/// Reads a response code in its parentheses at `pos`.
pub fn code(input: &[u8], pos: usize) -> (result: ParseResult<ResponseCode>)
    requires
        pos <= input.len(),
    ensures
        result@ == grammar::code(input@, pos as int),
        result matches ParseResult::Success(_, next) ==> pos < next <= input.len(),
{
    match byte(input, pos, grammar::LPAREN) {
        ParseResult::Success(_, _) => {},
        ParseResult::Incomplete => {
            return ParseResult::Incomplete;
        },
        ParseResult::Error => {
            return ParseResult::Error;
        },
    }
    let inside = match atom(input, pos + 1) {
        ParseResult::Success(name, end) => known_code(input, end, name),
        ParseResult::Incomplete => ParseResult::Incomplete,
        ParseResult::Error => extension_code(input, pos + 1),
    };
    match inside {
        ParseResult::Success(value, end) => match byte(input, end, grammar::RPAREN) {
            ParseResult::Success(_, after) => ParseResult::Success(value, after),
            ParseResult::Incomplete => ParseResult::Incomplete,
            ParseResult::Error => ParseResult::Error,
        },
        ParseResult::Incomplete => ParseResult::Incomplete,
        ParseResult::Error => ParseResult::Error,
    }
}

/// Reads blanks and a response code at `pos`, or nothing.
pub fn optional_code(input: &[u8], pos: usize) -> (result: ParseResult<Option<ResponseCode>>)
    requires
        pos <= input.len(),
    ensures
        result@ == grammar::optional_code(input@, pos as int),
        result matches ParseResult::Success(_, next) ==> pos <= next <= input.len(),
{
    match run(input, pos, ByteClass::Blank) {
        ParseResult::Success(_, start) => match code(input, start) {
            ParseResult::Success(value, end) => ParseResult::Success(Some(value), end),
            ParseResult::Incomplete => ParseResult::Incomplete,
            ParseResult::Error => ParseResult::Success(None, pos),
        },
        ParseResult::Incomplete => ParseResult::Incomplete,
        ParseResult::Error => ParseResult::Success(None, pos),
    }
}

/// Reads blanks and a string at `pos`, or nothing.
pub fn optional_string(input: &[u8], pos: usize) -> (result: ParseResult<Option<String>>)
    requires
        pos <= input.len(),
    ensures
        result@ == grammar::optional_string(input@, pos as int),
        result matches ParseResult::Success(_, next) ==> pos <= next <= input.len(),
{
    match run(input, pos, ByteClass::Blank) {
        ParseResult::Success(_, start) => match sievestring(input, start, false) {
            ParseResult::Success(value, end) => ParseResult::Success(Some(value), end),
            ParseResult::Incomplete => ParseResult::Incomplete,
            ParseResult::Error => ParseResult::Success(None, pos),
        },
        ParseResult::Incomplete => ParseResult::Incomplete,
        ParseResult::Error => ParseResult::Success(None, pos),
    }
}

/// Reads what follows the tag of a response line.
pub fn response_info(input: &[u8], pos: usize) -> (result: ParseResult<ResponseInfo>)
    requires
        pos <= input.len(),
    ensures
        result@ == grammar::response_info(input@, pos as int),
        result matches ParseResult::Success(_, next) ==> pos < next <= input.len(),
{
    let (code, after_code) = match optional_code(input, pos) {
        ParseResult::Success(code, next) => (code, next),
        ParseResult::Incomplete => {
            return ParseResult::Incomplete;
        },
        ParseResult::Error => {
            return ParseResult::Error;
        },
    };
    let (human, after_human) = match optional_string(input, after_code) {
        ParseResult::Success(human, next) => (human, next),
        ParseResult::Incomplete => {
            return ParseResult::Incomplete;
        },
        ParseResult::Error => {
            return ParseResult::Error;
        },
    };
    match crlf(input, after_human) {
        ParseResult::Success(_, end) => ParseResult::Success(ResponseInfo { code, human }, end),
        ParseResult::Incomplete => ParseResult::Incomplete,
        ParseResult::Error => ParseResult::Error,
    }
}

/// Reads a response line with the tag `OK` at `pos`.
pub fn response_ok(input: &[u8], pos: usize) -> (result: ParseResult<Response>)
    requires
        pos <= input.len(),
    ensures
        result@ == grammar::response_ok(input@, pos as int),
        result matches ParseResult::Success(response, next) ==> pos < next <= input.len()
            && response.tag == Tag::Okay,
{
    match word(input, pos, "OK", true) {
        ParseResult::Success(_, after) => match response_info(input, after) {
            ParseResult::Success(info, end) => ParseResult::Success(
                Response { tag: Tag::Okay, info },
                end,
            ),
            ParseResult::Incomplete => ParseResult::Incomplete,
            ParseResult::Error => ParseResult::Error,
        },
        ParseResult::Incomplete => ParseResult::Incomplete,
        ParseResult::Error => ParseResult::Error,
    }
}

/// Reads a response line with the tag `NO` or `BYE` at `pos`.
pub fn response_nobye(input: &[u8], pos: usize) -> (result: ParseResult<Response>)
    requires
        pos <= input.len(),
    ensures
        result@ == grammar::response_nobye(input@, pos as int),
        result matches ParseResult::Success(response, next) ==> pos < next <= input.len()
            && response.tag != Tag::Okay,
{
    let tagged = match word(input, pos, "NO", true) {
        ParseResult::Success(_, after) => ParseResult::Success(Tag::No, after),
        ParseResult::Incomplete => ParseResult::Incomplete,
        ParseResult::Error => match word(input, pos, "BYE", true) {
            ParseResult::Success(_, after) => ParseResult::Success(Tag::Bye, after),
            ParseResult::Incomplete => ParseResult::Incomplete,
            ParseResult::Error => ParseResult::Error,
        },
    };
    match tagged {
        ParseResult::Success(tag, after) => match response_info(input, after) {
            ParseResult::Success(info, end) => ParseResult::Success(Response { tag, info }, end),
            ParseResult::Incomplete => ParseResult::Incomplete,
            ParseResult::Error => ParseResult::Error,
        },
        ParseResult::Incomplete => ParseResult::Incomplete,
        ParseResult::Error => ParseResult::Error,
    }
}

/// Reads a response line with any tag at `pos`.
pub fn response_oknobye(input: &[u8], pos: usize) -> (result: ParseResult<Response>)
    requires
        pos <= input.len(),
    ensures
        result@ == grammar::response_oknobye(input@, pos as int),
        result matches ParseResult::Success(_, next) ==> pos < next <= input.len(),
{
    match response_ok(input, pos) {
        ParseResult::Error => response_nobye(input, pos),
        other => other,
    }
}

} // verus!
