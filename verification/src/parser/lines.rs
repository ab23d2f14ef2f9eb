//! Whole lines and what is made of them: capability announcements, lists
//! of scripts, and the answers to single commands.

use vstd::prelude::*;
use vstd::string::*;
use crate::capabilities::{Capability, CapabilityView, Version};
use crate::codec::push_char;
use crate::parser::grammar;
use crate::parser::grammar::{AuthLineView, ByteClass, CapabilityName, GetScriptView, Step};
use crate::parser::responses::{
    optional_string, response_nobye, response_ok, response_oknobye, spaced_string,
};
use crate::parser::strings::{quoted_string, sievestring};
use crate::parser::tokens::{byte, crlf, number, run, word};
use crate::parser::ParseResult;
use crate::response::{Response, ResponseView};
use crate::sieve_name::SieveNameString;

verus! {

/// Cuts `t` at its spaces.
pub fn split_blank(t: &str) -> (pieces: Vec<String>)
    ensures
        pieces.deep_view() == grammar::split_blank(t@),
{
    let mut done: Vec<String> = Vec::new();
    let mut current = String::new();
    assert(t@.take(0) =~= Seq::<char>::empty());
    assert(done.deep_view().push(current@) =~= seq![Seq::<char>::empty()]);
    for c in it: t.chars()
        invariant
            it.seq() == t@,
            grammar::split_blank(t@.take(it.index() as int)) == done.deep_view().push(current@),
    {
        let ghost i = it.index() as int;
        let ghost before = done.deep_view().push(current@);
        proof {
            assert(t@.take(i + 1).drop_last() =~= t@.take(i));
            assert(t@.take(i + 1).last() == c);
        }
        if c == ' ' {
            let ghost previous = done.deep_view();
            done.push(current);
            assert(done.deep_view() =~= before);
            current = String::new();
        } else {
            push_char(&mut current, c);
            assert(done.deep_view().push(current@) =~= before.drop_last().push(
                before.last().push(c),
            ));
        }
    }
    assert(t@.take(t@.len() as int) =~= t@);
    let ghost all = done.deep_view().push(current@);
    done.push(current);
    assert(done.deep_view() =~= all);
    done
}

/// Reads a list that is written as one string.
pub fn space_separated(t: &str) -> (words: Vec<String>)
    ensures
        words.deep_view() == grammar::space_separated(t@),
{
    if t.is_empty() {
        let words: Vec<String> = Vec::new();
        assert(words.deep_view() =~= Seq::empty());
        words
    } else {
        split_blank(t)
    }
}

/// Appending a digit multiplies by ten and adds the digit.
pub proof fn lemma_digits_value_push(t: Seq<char>, from: int, to: int)
    requires
        0 <= from <= to < t.len(),
    ensures
        grammar::digits_value(t.subrange(from, to + 1)) == grammar::digits_value(
            t.subrange(from, to),
        ) * 10 + (t[to] as nat - 48) as nat,
{
    assert(t.subrange(from, to + 1).drop_last() =~= t.subrange(from, to));
}

/// Reads the number of 64 bits that `t` stands for.
pub fn unsigned(t: &str) -> (number: Option<u64>)
    ensures
        number == grammar::unsigned(t@),
{
    let mut value: u64 = 0;
    let mut fits = true;
    let mut digits_only = true;
    let mut any = false;
    let mut signed = false;
    let mut first = true;
    for c in it: t.chars()
        invariant
            it.seq() == t@,
            first == (it.index() == 0),
            signed == (it.index() > 0 && t@[0] == '+'),
            any == (it.index() > (if signed { 1int } else { 0int })),
            digits_only == forall|k: int|
                (if signed { 1int } else { 0int }) <= k < it.index() ==> grammar::is_digit_char(
                    #[trigger] t@[k],
                ),
            digits_only && fits ==> value == grammar::digits_value(
                t@.subrange(if signed { 1int } else { 0int }, it.index() as int),
            ),
            digits_only && !fits ==> grammar::digits_value(
                t@.subrange(if signed { 1int } else { 0int }, it.index() as int),
            ) > u64::MAX,
    {
        let ghost i = it.index() as int;
        if first && c == '+' {
            signed = true;
            assert(t@.subrange(1, 1) =~= Seq::<char>::empty());
        } else {
            let ghost from = if signed { 1int } else { 0int };
            proof {
                lemma_digits_value_push(t@, from, i);
            }
            any = true;
            if '0' <= c && c <= '9' {
                let d: u64 = (c as u32 - 48) as u64;
                if digits_only && fits {
                    if value > (u64::MAX - d) / 10 {
                        fits = false;
                    } else {
                        value = value * 10 + d;
                    }
                }
            } else {
                digits_only = false;
            }
        }
        first = false;
    }
    proof {
        let from: int = if signed {
            1
        } else {
            0
        };
        let digits = t@.subrange(from, t@.len() as int);
        if digits_only {
            assert forall|k: int| 0 <= k < digits.len() implies grammar::is_digit_char(
                #[trigger] digits[k],
            ) by {
                assert(digits[k] == t@[from + k]);
            }
        } else {
            let k = choose|k: int| from <= k < t@.len() && !grammar::is_digit_char(#[trigger] t@[k]);
            assert(digits[k - from] == t@[k]);
        }
    }
    if any && digits_only && fits {
        Some(value)
    } else {
        None
    }
}

/// Reads a version in its quotes at `pos`.
pub fn version(input: &[u8], pos: usize) -> (result: ParseResult<Version>)
    requires
        pos <= input.len(),
    ensures
        result@ == grammar::version(input@, pos as int),
        result matches ParseResult::Success(_, next) ==> pos < next <= input.len(),
{
    let after_open = match byte(input, pos, grammar::DQUOTE) {
        ParseResult::Success(_, next) => next,
        ParseResult::Incomplete => {
            return ParseResult::Incomplete;
        },
        ParseResult::Error => {
            return ParseResult::Error;
        },
    };
    let (major, after_major) = match number(input, after_open) {
        ParseResult::Success(n, next) => (n, next),
        ParseResult::Incomplete => {
            return ParseResult::Incomplete;
        },
        ParseResult::Error => {
            return ParseResult::Error;
        },
    };
    let after_dot = match byte(input, after_major, 0x2e) {
        ParseResult::Success(_, next) => next,
        ParseResult::Incomplete => {
            return ParseResult::Incomplete;
        },
        ParseResult::Error => {
            return ParseResult::Error;
        },
    };
    let (minor, after_minor) = match number(input, after_dot) {
        ParseResult::Success(n, next) => (n, next),
        ParseResult::Incomplete => {
            return ParseResult::Incomplete;
        },
        ParseResult::Error => {
            return ParseResult::Error;
        },
    };
    match byte(input, after_minor, grammar::DQUOTE) {
        ParseResult::Success(_, end) => ParseResult::Success(Version { major, minor }, end),
        ParseResult::Incomplete => ParseResult::Incomplete,
        ParseResult::Error => ParseResult::Error,
    }
}

/// Reads the quoted name of a defined capability at `pos`.
pub fn capability_name(input: &[u8], pos: usize) -> (result: ParseResult<CapabilityName>)
    requires
        pos <= input.len(),
    ensures
        result@ == grammar::capability_name(input@, pos as int),
        result matches ParseResult::Success(_, next) ==> pos <= next <= input.len(),
{
    match word(input, pos, "\"IMPLEMENTATION\"", true) {
        ParseResult::Success(_, end) => return ParseResult::Success(
            CapabilityName::Implementation,
            end,
        ),
        ParseResult::Incomplete => return ParseResult::Incomplete,
        ParseResult::Error => {},
    }
    match word(input, pos, "\"SASL\"", true) {
        ParseResult::Success(_, end) => return ParseResult::Success(CapabilityName::Sasl, end),
        ParseResult::Incomplete => return ParseResult::Incomplete,
        ParseResult::Error => {},
    }
    match word(input, pos, "\"SIEVE\"", true) {
        ParseResult::Success(_, end) => return ParseResult::Success(CapabilityName::Sieve, end),
        ParseResult::Incomplete => return ParseResult::Incomplete,
        ParseResult::Error => {},
    }
    match word(input, pos, "\"MAXREDIRECTS\"", true) {
        ParseResult::Success(_, end) => return ParseResult::Success(
            CapabilityName::MaxRedirects,
            end,
        ),
        ParseResult::Incomplete => return ParseResult::Incomplete,
        ParseResult::Error => {},
    }
    match word(input, pos, "\"NOTIFY\"", true) {
        ParseResult::Success(_, end) => return ParseResult::Success(CapabilityName::Notify, end),
        ParseResult::Incomplete => return ParseResult::Incomplete,
        ParseResult::Error => {},
    }
    match word(input, pos, "\"STARTTLS\"", true) {
        ParseResult::Success(_, end) => return ParseResult::Success(CapabilityName::StartTls, end),
        ParseResult::Incomplete => return ParseResult::Incomplete,
        ParseResult::Error => {},
    }
    match word(input, pos, "\"LANGUAGE\"", true) {
        ParseResult::Success(_, end) => return ParseResult::Success(CapabilityName::Language, end),
        ParseResult::Incomplete => return ParseResult::Incomplete,
        ParseResult::Error => {},
    }
    match word(input, pos, "\"VERSION\"", true) {
        ParseResult::Success(_, end) => return ParseResult::Success(CapabilityName::Version, end),
        ParseResult::Incomplete => return ParseResult::Incomplete,
        ParseResult::Error => {},
    }
    match word(input, pos, "\"OWNER\"", true) {
        ParseResult::Success(_, end) => ParseResult::Success(CapabilityName::Owner, end),
        ParseResult::Incomplete => ParseResult::Incomplete,
        ParseResult::Error => ParseResult::Error,
    }
}

/// Reads what follows the name of a defined capability.
pub fn known_capability(input: &[u8], pos: usize, name: CapabilityName) -> (result: ParseResult<
    Capability,
>)
    requires
        pos <= input.len(),
    ensures
        result@ == grammar::known_capability(input@, pos as int, name),
        result matches ParseResult::Success(_, next) ==> pos <= next <= input.len(),
{
    match name {
        CapabilityName::StartTls => ParseResult::Success(Capability::StartTls, pos),
        CapabilityName::Version => match run(input, pos, ByteClass::Blank) {
            ParseResult::Success(_, start) => match version(input, start) {
                ParseResult::Success(v, end) => ParseResult::Success(Capability::Version(v), end),
                ParseResult::Incomplete => ParseResult::Incomplete,
                ParseResult::Error => ParseResult::Error,
            },
            ParseResult::Incomplete => ParseResult::Incomplete,
            ParseResult::Error => ParseResult::Error,
        },
        _ => match spaced_string(input, pos) {
            ParseResult::Success(v, end) => match name {
                CapabilityName::Implementation => ParseResult::Success(
                    Capability::Implementation(v),
                    end,
                ),
                CapabilityName::Sasl => ParseResult::Success(
                    Capability::Sasl(space_separated(v.as_str())),
                    end,
                ),
                CapabilityName::Sieve => ParseResult::Success(
                    Capability::Sieve(space_separated(v.as_str())),
                    end,
                ),
                CapabilityName::MaxRedirects => match unsigned(v.as_str()) {
                    Some(n) => ParseResult::Success(Capability::MaxRedirects(n), end),
                    None => ParseResult::Error,
                },
                CapabilityName::Notify => if v.as_str().is_empty() {
                    ParseResult::Error
                } else {
                    ParseResult::Success(Capability::Notify(split_blank(v.as_str())), end)
                },
                CapabilityName::Language => ParseResult::Success(Capability::Language(v), end),
                _ => ParseResult::Success(Capability::Owner(v), end),
            },
            ParseResult::Incomplete => ParseResult::Incomplete,
            ParseResult::Error => ParseResult::Error,
        },
    }
}

/// Reads a capability that the protocol does not define.
pub fn unknown_capability(input: &[u8], pos: usize) -> (result: ParseResult<Capability>)
    requires
        pos <= input.len(),
    ensures
        result@ == grammar::unknown_capability(input@, pos as int),
        result matches ParseResult::Success(_, next) ==> pos < next <= input.len(),
{
    match quoted_string(input, pos) {
        ParseResult::Success(name, end) => match optional_string(input, end) {
            ParseResult::Success(value, after) => ParseResult::Success(
                Capability::Unknown(name, value),
                after,
            ),
            ParseResult::Incomplete => ParseResult::Incomplete,
            ParseResult::Error => ParseResult::Error,
        },
        ParseResult::Incomplete => ParseResult::Incomplete,
        ParseResult::Error => ParseResult::Error,
    }
}

/// Reads one line of a capability announcement at `pos`.
pub fn single_capability(input: &[u8], pos: usize) -> (result: ParseResult<Capability>)
    requires
        pos <= input.len(),
    ensures
        result@ == grammar::single_capability(input@, pos as int),
        result matches ParseResult::Success(_, next) ==> pos < next <= input.len(),
{
    let entry = match capability_name(input, pos) {
        ParseResult::Success(name, end) => known_capability(input, end, name),
        ParseResult::Incomplete => ParseResult::Incomplete,
        ParseResult::Error => unknown_capability(input, pos),
    };
    match entry {
        ParseResult::Success(value, end) => match crlf(input, end) {
            ParseResult::Success(_, after) => ParseResult::Success(value, after),
            ParseResult::Incomplete => ParseResult::Incomplete,
            ParseResult::Error => ParseResult::Error,
        },
        ParseResult::Incomplete => ParseResult::Incomplete,
        ParseResult::Error => ParseResult::Error,
    }
}

/// Lines in front of lines in front of a rest are their concatenation in
/// front of the rest.
pub proof fn lemma_lines_before_twice<T>(
    a: Seq<T>,
    b: Seq<T>,
    rest: Step<(Seq<T>, ResponseView)>,
)
    ensures
        grammar::lines_before(a, grammar::lines_before(b, rest)) == grammar::lines_before(
            a + b,
            rest,
        ),
{
    if let Step::Done((more, response), end) = rest {
        assert(a + (b + more) =~= (a + b) + more);
    }
}

/// Reads a capability announcement at `pos`.
pub fn response_capability(input: &[u8], pos: usize) -> (result: ParseResult<
    (Vec<Capability>, Response),
>)
    requires
        pos <= input.len(),
    ensures
        result@ == grammar::response_capability(input@, pos as int),
        result matches ParseResult::Success(_, next) ==> pos < next <= input.len(),
{
    let ghost line = |s: Seq<u8>, i: int| grammar::single_capability(s, i);
    let mut lines: Vec<Capability> = Vec::new();
    let mut at: usize = pos;
    assert(lines.deep_view() =~= Seq::empty());
    proof {
        let whole = grammar::lines_and_response(input@, pos as int, line);
        if let Step::Done((more, response), end) = whole {
            assert(Seq::<CapabilityView>::empty() + more =~= more);
        }
    }
    loop
        invariant
            pos <= at <= input.len(),
            line == (|s: Seq<u8>, i: int| grammar::single_capability(s, i)),
            grammar::lines_and_response(input@, pos as int, line) == grammar::lines_before(
                lines.deep_view(),
                grammar::lines_and_response(input@, at as int, line),
            ),
        decreases input.len() - at,
    {
        match single_capability(input, at) {
            ParseResult::Success(entry, next) => {
                proof {
                    lemma_lines_before_twice(
                        lines.deep_view(),
                        seq![entry@],
                        grammar::lines_and_response(input@, next as int, line),
                    );
                }
                let ghost before = lines.deep_view();
                lines.push(entry);
                assert(lines.deep_view() =~= before + seq![entry@]);
                at = next;
            },
            ParseResult::Incomplete => {
                return ParseResult::Incomplete;
            },
            ParseResult::Error => {
                return match response_oknobye(input, at) {
                    ParseResult::Success(response, end) => {
                        assert(lines.deep_view() + Seq::<CapabilityView>::empty()
                            =~= lines.deep_view());
                        ParseResult::Success((lines, response), end)
                    },
                    ParseResult::Incomplete => ParseResult::Incomplete,
                    ParseResult::Error => ParseResult::Error,
                };
            },
        }
    }
}

/// Reads blanks and the word `ACTIVE` at `pos`, or nothing.
pub fn optional_active(input: &[u8], pos: usize) -> (result: ParseResult<bool>)
    requires
        pos <= input.len(),
    ensures
        result@ == grammar::optional_active(input@, pos as int),
        result matches ParseResult::Success(_, next) ==> pos <= next <= input.len(),
{
    match run(input, pos, ByteClass::Blank) {
        ParseResult::Success(_, start) => match word(input, start, "ACTIVE", true) {
            ParseResult::Success(_, end) => ParseResult::Success(true, end),
            ParseResult::Incomplete => ParseResult::Incomplete,
            ParseResult::Error => ParseResult::Success(false, pos),
        },
        ParseResult::Incomplete => ParseResult::Incomplete,
        ParseResult::Error => ParseResult::Success(false, pos),
    }
}

/// Reads one line of a list of scripts at `pos`.
pub fn script_line(input: &[u8], pos: usize) -> (result: ParseResult<(SieveNameString, bool)>)
    requires
        pos <= input.len(),
    ensures
        result@ == grammar::script_line(input@, pos as int),
        result matches ParseResult::Success(_, next) ==> pos < next <= input.len(),
{
    match sievestring(input, pos, false) {
        ParseResult::Success(text, end) => match SieveNameString::new(text) {
            Ok(name) => match optional_active(input, end) {
                ParseResult::Success(active, after) => match crlf(input, after) {
                    ParseResult::Success(_, eol) => ParseResult::Success((name, active), eol),
                    ParseResult::Incomplete => ParseResult::Incomplete,
                    ParseResult::Error => ParseResult::Error,
                },
                ParseResult::Incomplete => ParseResult::Incomplete,
                ParseResult::Error => ParseResult::Error,
            },
            Err(_) => ParseResult::Error,
        },
        ParseResult::Incomplete => ParseResult::Incomplete,
        ParseResult::Error => ParseResult::Error,
    }
}

/// Reads a list of scripts at `pos`.
pub fn response_listscripts(input: &[u8], pos: usize) -> (result: ParseResult<
    (Vec<(SieveNameString, bool)>, Response),
>)
    requires
        pos <= input.len(),
    ensures
        result@ == grammar::response_listscripts(input@, pos as int),
        result matches ParseResult::Success(_, next) ==> pos < next <= input.len(),
{
    let ghost line = |s: Seq<u8>, i: int| grammar::script_line(s, i);
    let mut lines: Vec<(SieveNameString, bool)> = Vec::new();
    let mut at: usize = pos;
    assert(lines.deep_view() =~= Seq::empty());
    proof {
        let whole = grammar::lines_and_response(input@, pos as int, line);
        if let Step::Done((more, response), end) = whole {
            assert(Seq::<(Seq<char>, bool)>::empty() + more =~= more);
        }
    }
    loop
        invariant
            pos <= at <= input.len(),
            line == (|s: Seq<u8>, i: int| grammar::script_line(s, i)),
            grammar::lines_and_response(input@, pos as int, line) == grammar::lines_before(
                lines.deep_view(),
                grammar::lines_and_response(input@, at as int, line),
            ),
        decreases input.len() - at,
    {
        match script_line(input, at) {
            ParseResult::Success(entry, next) => {
                proof {
                    lemma_lines_before_twice(
                        lines.deep_view(),
                        seq![entry.deep_view()],
                        grammar::lines_and_response(input@, next as int, line),
                    );
                }
                let ghost before = lines.deep_view();
                let ghost added = entry.deep_view();
                lines.push(entry);
                assert(lines.deep_view() =~= before + seq![added]);
                at = next;
            },
            ParseResult::Incomplete => {
                return ParseResult::Incomplete;
            },
            ParseResult::Error => {
                return match response_oknobye(input, at) {
                    ParseResult::Success(response, end) => {
                        assert(lines.deep_view() + Seq::<(Seq<char>, bool)>::empty()
                            =~= lines.deep_view());
                        ParseResult::Success((lines, response), end)
                    },
                    ParseResult::Incomplete => ParseResult::Incomplete,
                    ParseResult::Error => ParseResult::Error,
                };
            },
        }
    }
}

/// Reads a string and the line break at `pos`.
pub fn string_line(input: &[u8], pos: usize) -> (result: ParseResult<String>)
    requires
        pos <= input.len(),
    ensures
        result@ == grammar::string_line(input@, pos as int),
        result matches ParseResult::Success(_, next) ==> pos < next <= input.len(),
{
    match sievestring(input, pos, false) {
        ParseResult::Success(value, end) => match crlf(input, end) {
            ParseResult::Success(_, after) => ParseResult::Success(value, after),
            ParseResult::Incomplete => ParseResult::Incomplete,
            ParseResult::Error => ParseResult::Error,
        },
        other => other,
    }
}

/// What a server answered to `GETSCRIPT`.
#[derive(Debug, PartialEq)]
pub enum GetScriptReply {
    /// The script, and the `OK` line after it.
    Script(String, Response),
    /// The `NO` or `BYE` line.
    Refused(Response),
}

impl View for GetScriptReply {
    type V = GetScriptView;

    open spec fn view(&self) -> GetScriptView {
        match self {
            GetScriptReply::Script(script, response) => GetScriptView::Script(script@, response@),
            GetScriptReply::Refused(response) => GetScriptView::Refused(response@),
        }
    }
}

impl DeepView for GetScriptReply {
    type V = GetScriptView;

    open spec fn deep_view(&self) -> GetScriptView {
        self@
    }
}

/// Reads the answer to `GETSCRIPT` at `pos`.
pub fn response_getscript(input: &[u8], pos: usize) -> (result: ParseResult<GetScriptReply>)
    requires
        pos <= input.len(),
    ensures
        result@ == grammar::response_getscript(input@, pos as int),
        result matches ParseResult::Success(_, next) ==> pos < next <= input.len(),
{
    match string_line(input, pos) {
        ParseResult::Success(script, end) => match response_ok(input, end) {
            ParseResult::Success(response, after) => {
                return ParseResult::Success(GetScriptReply::Script(script, response), after);
            },
            ParseResult::Incomplete => {
                return ParseResult::Incomplete;
            },
            ParseResult::Error => {},
        },
        ParseResult::Incomplete => {
            return ParseResult::Incomplete;
        },
        ParseResult::Error => {},
    }
    match response_nobye(input, pos) {
        ParseResult::Success(response, end) => ParseResult::Success(
            GetScriptReply::Refused(response),
            end,
        ),
        ParseResult::Incomplete => ParseResult::Incomplete,
        ParseResult::Error => ParseResult::Error,
    }
}

/// Reads the answer to `STARTTLS` and the announcement after it at `pos`.
pub fn response_starttls(input: &[u8], pos: usize) -> (result: ParseResult<
    (Vec<Capability>, Response),
>)
    requires
        pos <= input.len(),
    ensures
        result@ == grammar::response_starttls(input@, pos as int),
        result matches ParseResult::Success(_, next) ==> pos < next <= input.len(),
{
    match response_ok(input, pos) {
        ParseResult::Success(_, end) => match response_capability(input, end) {
            ParseResult::Error => {},
            other => {
                return other;
            },
        },
        ParseResult::Incomplete => {
            return ParseResult::Incomplete;
        },
        ParseResult::Error => {},
    }
    match response_nobye(input, pos) {
        ParseResult::Success(response, end) => {
            let none: Vec<Capability> = Vec::new();
            assert(none.deep_view() =~= Seq::empty());
            ParseResult::Success((none, response), end)
        },
        ParseResult::Incomplete => ParseResult::Incomplete,
        ParseResult::Error => ParseResult::Error,
    }
}

/// Reads the end of an authentication exchange at `pos`.
pub fn response_authenticate_complete(input: &[u8], pos: usize) -> (result: ParseResult<
    (Option<Vec<Capability>>, Response),
>)
    requires
        pos <= input.len(),
    ensures
        result@ == grammar::response_authenticate_complete(input@, pos as int),
        result matches ParseResult::Success(_, next) ==> pos < next <= input.len(),
{
    match response_ok(input, pos) {
        ParseResult::Success(first, end) => {
            return match response_capability(input, end) {
                ParseResult::Success((caps, last), after) => ParseResult::Success(
                    (Some(caps), last),
                    after,
                ),
                ParseResult::Incomplete => ParseResult::Incomplete,
                ParseResult::Error => ParseResult::Success((None, first), end),
            };
        },
        ParseResult::Incomplete => {
            return ParseResult::Incomplete;
        },
        ParseResult::Error => {},
    }
    match response_nobye(input, pos) {
        ParseResult::Success(response, end) => ParseResult::Success((None, response), end),
        ParseResult::Incomplete => ParseResult::Incomplete,
        ParseResult::Error => ParseResult::Error,
    }
}

/// What a server sent within an authentication exchange.
#[derive(Debug, PartialEq)]
pub enum AuthLine {
    /// A challenge, still in base64.
    Challenge(String),
    /// A response line.
    Reply(Response),
}

impl View for AuthLine {
    type V = AuthLineView;

    open spec fn view(&self) -> AuthLineView {
        match self {
            AuthLine::Challenge(challenge) => AuthLineView::Challenge(challenge@),
            AuthLine::Reply(response) => AuthLineView::Reply(response@),
        }
    }
}

impl DeepView for AuthLine {
    type V = AuthLineView;

    open spec fn deep_view(&self) -> AuthLineView {
        self@
    }
}

/// Reads one line of an authentication exchange at `pos`.
pub fn response_authenticate(input: &[u8], pos: usize) -> (result: ParseResult<AuthLine>)
    requires
        pos <= input.len(),
    ensures
        result@ == grammar::response_authenticate(input@, pos as int),
        result matches ParseResult::Success(_, next) ==> pos < next <= input.len(),
{
    match string_line(input, pos) {
        ParseResult::Success(challenge, end) => ParseResult::Success(
            AuthLine::Challenge(challenge),
            end,
        ),
        ParseResult::Incomplete => ParseResult::Incomplete,
        ParseResult::Error => match response_oknobye(input, pos) {
            ParseResult::Success(response, end) => ParseResult::Success(AuthLine::Reply(response), end),
            ParseResult::Incomplete => ParseResult::Incomplete,
            ParseResult::Error => ParseResult::Error,
        },
    }
}

} // verus!
