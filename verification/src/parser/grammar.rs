//! The grammar of the protocol, as functions from a buffer and a position to
//! the outcome of parsing there.

use vstd::prelude::*;
use vstd::string::*;
use vstd::utf8::*;
use crate::capabilities::{CapabilityView, Version};
use crate::response::{ExtensionItemView, Quota, ResponseCodeView, ResponseInfoView, ResponseView, Tag};
use crate::sieve_name::is_bad_name;

verus! {

/// Outcome of parsing at a position.
pub ghost enum Step<T> {
    /// The buffer ends before the outcome is decided.
    Incomplete,
    /// The bytes do not match.
    Fail,
    /// The value, and the position after it.
    Done(T, int),
}

impl<T> Step<T> {
    /// The position after the value.
    pub open spec fn end(self) -> int {
        self->Done_1
    }

    /// The value.
    pub open spec fn value(self) -> T {
        self->Done_0
    }

    /// The same lack of a value, for another type of value.
    pub open spec fn carry<U>(self) -> Step<U> {
        match self {
            Step::Incomplete => Step::Incomplete,
            _ => Step::Fail,
        }
    }
}

pub const DQUOTE: u8 = 0x22;

pub const BACKSLASH: u8 = 0x5c;

pub const LPAREN: u8 = 0x28;

pub const RPAREN: u8 = 0x29;

pub const LBRACE: u8 = 0x7b;

pub const SPACE: u8 = 0x20;

pub const TAB: u8 = 0x09;

/// An ASCII letter in upper case; any other byte as it is.
pub open spec fn fold_case(b: u8) -> u8 {
    if 0x61 <= b <= 0x7a {
        (b - 0x20) as u8
    } else {
        b
    }
}

pub open spec fn same_byte(a: u8, b: u8, caseless: bool) -> bool {
    if caseless {
        fold_case(a) == fold_case(b)
    } else {
        a == b
    }
}

/// A fixed word at `i`. As far as the buffer goes it must agree with the
/// word; where it ends before the word does, more bytes are needed.
pub open spec fn word(s: Seq<u8>, i: int, w: Seq<u8>, caseless: bool) -> Step<()> {
    let available = if s.len() - i < w.len() {
        s.len() - i
    } else {
        w.len() as int
    };
    if exists|k: int| 0 <= k < available && !same_byte(#[trigger] s[i + k], w[k], caseless) {
        Step::Fail
    } else if available < w.len() {
        Step::Incomplete
    } else {
        Step::Done((), i + w.len())
    }
}

/// One given byte at `i`.
pub open spec fn byte(s: Seq<u8>, i: int, b: u8) -> Step<()> {
    if i >= s.len() {
        Step::Incomplete
    } else if s[i] == b {
        Step::Done((), i + 1)
    } else {
        Step::Fail
    }
}

/// The line break.
pub open spec fn crlf(s: Seq<u8>, i: int) -> Step<()> {
    word(s, i, seq![0x0du8, 0x0au8], false)
}

/// The classes of bytes of which the grammar takes runs.
#[derive(Debug, PartialEq, Eq, Clone, Copy, Structural)]
pub enum ByteClass {
    /// Space and tab.
    Blank,
    /// The decimal digits.
    Digit,
    /// What the name of a response code is made of: letters, digits, and
    /// `-`, `_`, `.`, `/`.
    Name,
}

impl ByteClass {
    pub open spec fn admits(self, b: u8) -> bool {
        match self {
            ByteClass::Blank => b == SPACE || b == TAB,
            ByteClass::Digit => 0x30 <= b <= 0x39,
            ByteClass::Name => (0x30 <= b <= 0x39) || (0x41 <= b <= 0x5a) || (0x61 <= b <= 0x7a)
                || b == 0x2d || b == 0x5f || b == 0x2e || b == 0x2f,
        }
    }
}

/// Where the run of bytes of `class` that starts at `i` ends.
pub open spec fn run_end(s: Seq<u8>, i: int, class: ByteClass) -> int
    decreases s.len() - i,
{
    if 0 <= i < s.len() && class.admits(s[i]) {
        run_end(s, i + 1, class)
    } else {
        i
    }
}

/// One or more bytes of `class`. A run that reaches the end of the buffer
/// may go on, so more bytes are needed.
pub open spec fn run(s: Seq<u8>, i: int, class: ByteClass) -> Step<()> {
    let j = run_end(s, i, class);
    if j >= s.len() {
        Step::Incomplete
    } else if j == i {
        Step::Fail
    } else {
        Step::Done((), j)
    }
}

/// One or more blanks.
pub open spec fn blanks(s: Seq<u8>, i: int) -> Step<()> {
    run(s, i, ByteClass::Blank)
}

/// The number that decimal digits stand for.
pub open spec fn decimal_value(digits: Seq<u8>) -> nat
    decreases digits.len(),
{
    if digits.len() == 0 {
        0
    } else {
        decimal_value(digits.drop_last()) * 10 + (digits.last() - 0x30) as nat
    }
}

/// One or more digits that stand for a number of 64 bits.
pub open spec fn number(s: Seq<u8>, i: int) -> Step<u64> {
    match run(s, i, ByteClass::Digit) {
        Step::Done(_, j) => {
            let value = decimal_value(s.subrange(i, j));
            if value <= u64::MAX {
                Step::Done(value as u64, j)
            } else {
                Step::Fail
            }
        },
        other => other.carry(),
    }
}

/// The decimal digits of `n`, without leading zeros.
pub open spec fn decimal_digits(n: nat) -> Seq<u8>
    decreases n,
{
    if n < 10 {
        seq![(0x30 + n) as u8]
    } else {
        decimal_digits(n / 10).push((0x30 + n % 10) as u8)
    }
}

/// The header of the literal of `n` bytes.
pub open spec fn literal_header(n: nat, to_server: bool) -> Seq<u8> {
    seq![LBRACE] + decimal_digits(n) + literal_close(to_server) + seq![0x0du8, 0x0au8]
}

/// The text that bytes encode, where they are well-formed UTF-8.
pub open spec fn text(bytes: Seq<u8>, end: int) -> Step<Seq<char>> {
    if valid_utf8(bytes) {
        Step::Done(decode_utf8(bytes), end)
    } else {
        Step::Fail
    }
}

/// What closes the length of a literal: `+}` on the way to the server, `}`
/// on the way back.
pub open spec fn literal_close(to_server: bool) -> Seq<u8> {
    if to_server {
        seq![0x2bu8, 0x7du8]
    } else {
        seq![0x7du8]
    }
}

/// The header of a literal: the length in braces, and a line break.
pub open spec fn literal_len(s: Seq<u8>, i: int, to_server: bool) -> Step<u64> {
    let open = byte(s, i, LBRACE);
    if !(open is Done) {
        open.carry()
    } else {
        let length = number(s, open.end());
        if !(length is Done) {
            length.carry()
        } else {
            let close = word(s, length.end(), literal_close(to_server), false);
            if !(close is Done) {
                close.carry()
            } else {
                let eol = crlf(s, close.end());
                if !(eol is Done) {
                    eol.carry()
                } else {
                    Step::Done(length.value(), eol.end())
                }
            }
        }
    }
}

/// A literal: its header, then as many bytes as the header says.
pub open spec fn literal(s: Seq<u8>, i: int, to_server: bool) -> Step<Seq<char>> {
    let header = literal_len(s, i, to_server);
    if !(header is Done) {
        header.carry()
    } else if s.len() - header.end() < header.value() {
        Step::Incomplete
    } else {
        let end = header.end() + header.value();
        text(s.subrange(header.end(), end), end)
    }
}

/// `first`, then whatever `rest` holds.
pub open spec fn prepend(first: Seq<u8>, rest: Step<Seq<u8>>) -> Step<Seq<u8>> {
    match rest {
        Step::Done(bytes, end) => Step::Done(first + bytes, end),
        other => other,
    }
}

/// The inside of a quoted string, up to and with the closing quote. A
/// backslash stands before each quote and each backslash that belongs to
/// the string.
pub open spec fn quoted_body(s: Seq<u8>, i: int) -> Step<Seq<u8>>
    decreases s.len() - i,
{
    if i < 0 || i >= s.len() {
        Step::Incomplete
    } else if s[i] == DQUOTE {
        Step::Done(Seq::empty(), i + 1)
    } else if s[i] == BACKSLASH {
        if i + 1 >= s.len() {
            Step::Incomplete
        } else if s[i + 1] == DQUOTE || s[i + 1] == BACKSLASH {
            prepend(seq![s[i + 1]], quoted_body(s, i + 2))
        } else {
            Step::Fail
        }
    } else {
        prepend(seq![s[i]], quoted_body(s, i + 1))
    }
}

/// A quoted string.
pub open spec fn quoted_string(s: Seq<u8>, i: int) -> Step<Seq<char>> {
    let open = byte(s, i, DQUOTE);
    if !(open is Done) {
        open.carry()
    } else {
        match quoted_body(s, i + 1) {
            Step::Done(bytes, end) => text(bytes, end),
            other => other.carry(),
        }
    }
}

/// A string in either form: a literal, or else a quoted string.
pub open spec fn sievestring(s: Seq<u8>, i: int, to_server: bool) -> Step<Seq<char>> {
    match literal(s, i, to_server) {
        Step::Fail => quoted_string(s, i),
        other => other,
    }
}

/// The names of the response codes that the protocol defines.
#[derive(Debug, PartialEq, Eq, Clone, Copy, Structural)]
pub enum Atom {
    AuthTooWeak,
    EncryptNeeded,
    QuotaMaxScripts,
    QuotaMaxSize,
    Quota,
    Sasl,
    Referral,
    TransitionNeeded,
    TryLater,
    Active,
    Nonexistent,
    AlreadyExists,
    Warnings,
    Tag,
}

impl DeepView for Atom {
    type V = Atom;

    open spec fn deep_view(&self) -> Atom {
        *self
    }
}

/// The word `w` in any case of letters stands for `value`; where the bytes
/// are not that word, `otherwise` decides.
pub open spec fn keyword<T>(s: Seq<u8>, i: int, w: &str, value: T, otherwise: Step<T>) -> Step<T> {
    match word(s, i, w.spec_bytes(), true) {
        Step::Done(_, end) => Step::Done(value, end),
        Step::Incomplete => Step::Incomplete,
        Step::Fail => otherwise,
    }
}

/// The name of a defined response code. The names are tried in this order,
/// and the first that the bytes do not contradict decides.
pub open spec fn atom(s: Seq<u8>, i: int) -> Step<Atom> {
    keyword(s, i, "AUTH-TOO-WEAK", Atom::AuthTooWeak,
    keyword(s, i, "ENCRYPT-NEEDED", Atom::EncryptNeeded,
    keyword(s, i, "QUOTA/MAXSCRIPTS", Atom::QuotaMaxScripts,
    keyword(s, i, "QUOTA/MAXSIZE", Atom::QuotaMaxSize,
    keyword(s, i, "QUOTA", Atom::Quota,
    keyword(s, i, "SASL", Atom::Sasl,
    keyword(s, i, "REFERRAL", Atom::Referral,
    keyword(s, i, "TRANSITION-NEEDED", Atom::TransitionNeeded,
    keyword(s, i, "TRYLATER", Atom::TryLater,
    keyword(s, i, "ACTIVE", Atom::Active,
    keyword(s, i, "NONEXISTENT", Atom::Nonexistent,
    keyword(s, i, "ALREADYEXISTS", Atom::AlreadyExists,
    keyword(s, i, "WARNINGS", Atom::Warnings,
    keyword(s, i, "TAG", Atom::Tag,
    Step::Fail))))))))))))))
}

/// Blanks and a string.
pub open spec fn spaced_string(s: Seq<u8>, i: int) -> Step<Seq<char>> {
    match blanks(s, i) {
        Step::Done(_, start) => sievestring(s, start, false),
        other => other.carry(),
    }
}

/// `items` in front of whatever `rest` holds.
pub open spec fn items_before<T>(items: Seq<T>, rest: Step<Seq<T>>) -> Step<Seq<T>> {
    match rest {
        Step::Done(more, end) => Step::Done(items + more, end),
        other => other,
    }
}

/// One item of extension data: a string, or else a number, or else a list
/// of items in parentheses.
pub open spec fn extension_item(s: Seq<u8>, i: int) -> Step<ExtensionItemView>
    decreases s.len() - i, 0nat,
{
    match sievestring(s, i, false) {
        Step::Done(t, end) => Step::Done(ExtensionItemView::String(t), end),
        Step::Incomplete => Step::Incomplete,
        Step::Fail => match number(s, i) {
            Step::Done(n, end) => Step::Done(ExtensionItemView::Number(n), end),
            Step::Incomplete => Step::Incomplete,
            Step::Fail => if 0 <= i < s.len() && s[i] == LPAREN {
                match extension_data(s, i + 1) {
                    Step::Done(items, end) => match byte(s, end, RPAREN) {
                        Step::Done(_, after) => Step::Done(
                            ExtensionItemView::ExtensionData(items),
                            after,
                        ),
                        other => other.carry(),
                    },
                    other => other.carry(),
                }
            } else {
                byte(s, i, LPAREN).carry()
            },
        },
    }
}

/// One or more items, with blanks between them.
pub open spec fn extension_data(s: Seq<u8>, i: int) -> Step<Seq<ExtensionItemView>>
    decreases s.len() - i, 2nat,
{
    match extension_item(s, i) {
        Step::Done(first, end) => if i < end <= s.len() {
            items_before(seq![first], extension_more(s, end))
        } else {
            Step::Fail
        },
        other => other.carry(),
    }
}

/// The items after the first: as long as blanks and an item follow, they
/// belong to the list.
pub open spec fn extension_more(s: Seq<u8>, i: int) -> Step<Seq<ExtensionItemView>>
    decreases s.len() - i, 1nat,
{
    match blanks(s, i) {
        Step::Incomplete => Step::Incomplete,
        Step::Fail => Step::Done(Seq::empty(), i),
        Step::Done(_, start) => if i < start <= s.len() {
            match extension_item(s, start) {
                Step::Incomplete => Step::Incomplete,
                Step::Fail => Step::Done(Seq::empty(), i),
                Step::Done(item, end) => if start < end <= s.len() {
                    items_before(seq![item], extension_more(s, end))
                } else {
                    Step::Fail
                },
            }
        } else {
            Step::Fail
        },
    }
}

/// Blanks and extension data, or nothing.
pub open spec fn optional_data(s: Seq<u8>, i: int) -> Step<Option<Seq<ExtensionItemView>>> {
    match blanks(s, i) {
        Step::Incomplete => Step::Incomplete,
        Step::Fail => Step::Done(None, i),
        Step::Done(_, start) => match extension_data(s, start) {
            Step::Incomplete => Step::Incomplete,
            Step::Fail => Step::Done(None, i),
            Step::Done(items, end) => Step::Done(Some(items), end),
        },
    }
}

/// What follows the name of a defined response code.
pub open spec fn known_code(s: Seq<u8>, i: int, name: Atom) -> Step<ResponseCodeView> {
    match name {
        Atom::AuthTooWeak => Step::Done(ResponseCodeView::AuthTooWeak, i),
        Atom::EncryptNeeded => Step::Done(ResponseCodeView::EncryptNeeded, i),
        Atom::QuotaMaxScripts => Step::Done(ResponseCodeView::Quota(Quota::MaxScripts), i),
        Atom::QuotaMaxSize => Step::Done(ResponseCodeView::Quota(Quota::MaxSize), i),
        Atom::Quota => Step::Done(ResponseCodeView::Quota(Quota::Unspecified), i),
        Atom::Sasl => match spaced_string(s, i) {
            Step::Done(t, end) => Step::Done(ResponseCodeView::Sasl(t), end),
            other => other.carry(),
        },
        Atom::Referral => match spaced_string(s, i) {
            Step::Done(t, end) => Step::Done(ResponseCodeView::Referral(t), end),
            other => other.carry(),
        },
        Atom::TransitionNeeded => Step::Done(ResponseCodeView::TransitionNeeded, i),
        Atom::TryLater => Step::Done(ResponseCodeView::TryLater, i),
        Atom::Active => Step::Done(ResponseCodeView::Active, i),
        Atom::Nonexistent => Step::Done(ResponseCodeView::Nonexistent, i),
        Atom::AlreadyExists => Step::Done(ResponseCodeView::AlreadyExists, i),
        Atom::Warnings => Step::Done(ResponseCodeView::Warnings, i),
        Atom::Tag => match spaced_string(s, i) {
            Step::Done(t, end) => Step::Done(ResponseCodeView::Tag(t), end),
            other => other.carry(),
        },
    }
}

/// The name of a response code that the protocol does not define: a string,
/// or else a run of name bytes.
pub open spec fn extension_name(s: Seq<u8>, i: int) -> Step<Seq<char>> {
    match sievestring(s, i, false) {
        Step::Fail => match run(s, i, ByteClass::Name) {
            Step::Done(_, end) => text(s.subrange(i, end), end),
            other => other.carry(),
        },
        other => other,
    }
}

/// A response code that the protocol does not define: its name, and its
/// data if it has any.
pub open spec fn extension_code(s: Seq<u8>, i: int) -> Step<ResponseCodeView> {
    match extension_name(s, i) {
        Step::Done(name, end) => match optional_data(s, end) {
            Step::Done(data, after) => Step::Done(ResponseCodeView::Extension { name, data }, after),
            other => other.carry(),
        },
        other => other.carry(),
    }
}

/// A response code in its parentheses. One that the protocol does not
/// define is kept, not refused.
pub open spec fn code(s: Seq<u8>, i: int) -> Step<ResponseCodeView> {
    let open = byte(s, i, LPAREN);
    if !(open is Done) {
        open.carry()
    } else {
        let inside = match atom(s, i + 1) {
            Step::Done(name, end) => known_code(s, end, name),
            Step::Incomplete => Step::Incomplete,
            Step::Fail => extension_code(s, i + 1),
        };
        match inside {
            Step::Done(value, end) => match byte(s, end, RPAREN) {
                Step::Done(_, after) => Step::Done(value, after),
                other => other.carry(),
            },
            other => other,
        }
    }
}

/// Blanks and a response code, or nothing.
pub open spec fn optional_code(s: Seq<u8>, i: int) -> Step<Option<ResponseCodeView>> {
    match blanks(s, i) {
        Step::Incomplete => Step::Incomplete,
        Step::Fail => Step::Done(None, i),
        Step::Done(_, start) => match code(s, start) {
            Step::Incomplete => Step::Incomplete,
            Step::Fail => Step::Done(None, i),
            Step::Done(value, end) => Step::Done(Some(value), end),
        },
    }
}

/// Blanks and a string, or nothing.
pub open spec fn optional_string(s: Seq<u8>, i: int) -> Step<Option<Seq<char>>> {
    match blanks(s, i) {
        Step::Incomplete => Step::Incomplete,
        Step::Fail => Step::Done(None, i),
        Step::Done(_, start) => match sievestring(s, start, false) {
            Step::Incomplete => Step::Incomplete,
            Step::Fail => Step::Done(None, i),
            Step::Done(value, end) => Step::Done(Some(value), end),
        },
    }
}

/// What follows the tag of a response line: a code if there is one, a text
/// if there is one, and the line break.
pub open spec fn response_info(s: Seq<u8>, i: int) -> Step<ResponseInfoView> {
    match optional_code(s, i) {
        Step::Done(code, after_code) => match optional_string(s, after_code) {
            Step::Done(human, after_human) => match crlf(s, after_human) {
                Step::Done(_, end) => Step::Done(ResponseInfoView { code, human }, end),
                other => other.carry(),
            },
            other => other.carry(),
        },
        other => other.carry(),
    }
}

/// A response line with the tag `OK`.
pub open spec fn response_ok(s: Seq<u8>, i: int) -> Step<ResponseView> {
    match word(s, i, "OK".spec_bytes(), true) {
        Step::Done(_, after) => match response_info(s, after) {
            Step::Done(info, end) => Step::Done(ResponseView { tag: Tag::Okay, info }, end),
            other => other.carry(),
        },
        other => other.carry(),
    }
}

/// A response line with the tag `NO` or `BYE`.
pub open spec fn response_nobye(s: Seq<u8>, i: int) -> Step<ResponseView> {
    match keyword(s, i, "NO", Tag::No, keyword(s, i, "BYE", Tag::Bye, Step::Fail)) {
        Step::Done(tag, after) => match response_info(s, after) {
            Step::Done(info, end) => Step::Done(ResponseView { tag, info }, end),
            other => other.carry(),
        },
        other => other.carry(),
    }
}

/// A response line with any tag.
pub open spec fn response_oknobye(s: Seq<u8>, i: int) -> Step<ResponseView> {
    match response_ok(s, i) {
        Step::Fail => response_nobye(s, i),
        other => other,
    }
}

/// The pieces of `t` between its spaces. There is one piece more than
/// there are spaces, so two spaces in a row have an empty piece between
/// them.
pub open spec fn split_blank(t: Seq<char>) -> Seq<Seq<char>>
    decreases t.len(),
{
    if t.len() == 0 {
        seq![Seq::empty()]
    } else {
        let before = split_blank(t.drop_last());
        if t.last() == ' ' {
            before.push(Seq::empty())
        } else {
            before.drop_last().push(before.last().push(t.last()))
        }
    }
}

/// The text that `pieces` are the pieces of: the pieces in a row, with a
/// space between one and the next.
pub open spec fn join_blank(pieces: Seq<Seq<char>>) -> Seq<char>
    decreases pieces.len(),
{
    if pieces.len() == 0 {
        Seq::empty()
    } else if pieces.len() == 1 {
        pieces[0]
    } else {
        join_blank(pieces.drop_last()) + seq![' '] + pieces.last()
    }
}

/// The words of a list that is written as one string. The empty string is
/// the empty list.
pub open spec fn space_separated(t: Seq<char>) -> Seq<Seq<char>> {
    if t.len() == 0 {
        Seq::empty()
    } else {
        split_blank(t)
    }
}

pub open spec fn is_digit_char(c: char) -> bool {
    '0' <= c <= '9'
}

/// Every character of `t` is a decimal digit.
pub open spec fn all_digits(t: Seq<char>) -> bool {
    forall|k: int| 0 <= k < t.len() ==> is_digit_char(#[trigger] t[k])
}

/// The number that decimal digits stand for.
pub open spec fn digits_value(t: Seq<char>) -> nat
    decreases t.len(),
{
    if t.len() == 0 {
        0
    } else {
        digits_value(t.drop_last()) * 10 + (t.last() as nat - 48) as nat
    }
}

/// The number of 64 bits that `t` stands for: one or more decimal digits,
/// with or without a `+` in front.
pub open spec fn unsigned(t: Seq<char>) -> Option<u64> {
    let from: int = if t.len() > 0 && t[0] == '+' {
        1
    } else {
        0
    };
    let digits = t.subrange(from, t.len() as int);
    if digits.len() > 0 && all_digits(digits) && digits_value(digits) <= u64::MAX {
        Some(digits_value(digits) as u64)
    } else {
        None
    }
}

/// A version in its quotes: two numbers with a dot between them.
pub open spec fn version(s: Seq<u8>, i: int) -> Step<Version> {
    let open = byte(s, i, DQUOTE);
    if !(open is Done) {
        open.carry()
    } else {
        let major = number(s, open.end());
        if !(major is Done) {
            major.carry()
        } else {
            let dot = byte(s, major.end(), 0x2e);
            if !(dot is Done) {
                dot.carry()
            } else {
                let minor = number(s, dot.end());
                if !(minor is Done) {
                    minor.carry()
                } else {
                    let close = byte(s, minor.end(), DQUOTE);
                    if !(close is Done) {
                        close.carry()
                    } else {
                        Step::Done(
                            Version { major: major.value(), minor: minor.value() },
                            close.end(),
                        )
                    }
                }
            }
        }
    }
}

/// The capabilities that the protocol defines.
#[derive(Debug, PartialEq, Eq, Clone, Copy, Structural)]
pub enum CapabilityName {
    Implementation,
    Sasl,
    Sieve,
    MaxRedirects,
    Notify,
    StartTls,
    Language,
    Version,
    Owner,
}

impl DeepView for CapabilityName {
    type V = CapabilityName;

    open spec fn deep_view(&self) -> CapabilityName {
        *self
    }
}

/// The quoted name of a defined capability, in any case of letters.
pub open spec fn capability_name(s: Seq<u8>, i: int) -> Step<CapabilityName> {
    keyword(s, i, "\"IMPLEMENTATION\"", CapabilityName::Implementation,
    keyword(s, i, "\"SASL\"", CapabilityName::Sasl,
    keyword(s, i, "\"SIEVE\"", CapabilityName::Sieve,
    keyword(s, i, "\"MAXREDIRECTS\"", CapabilityName::MaxRedirects,
    keyword(s, i, "\"NOTIFY\"", CapabilityName::Notify,
    keyword(s, i, "\"STARTTLS\"", CapabilityName::StartTls,
    keyword(s, i, "\"LANGUAGE\"", CapabilityName::Language,
    keyword(s, i, "\"VERSION\"", CapabilityName::Version,
    keyword(s, i, "\"OWNER\"", CapabilityName::Owner,
    Step::Fail)))))))))
}

/// What follows the name of a defined capability. All but `STARTTLS` have
/// a value, and the line is wrong without it.
pub open spec fn known_capability(s: Seq<u8>, i: int, name: CapabilityName) -> Step<
    CapabilityView,
> {
    match name {
        CapabilityName::Implementation => match spaced_string(s, i) {
            Step::Done(v, end) => Step::Done(CapabilityView::Implementation(v), end),
            other => other.carry(),
        },
        CapabilityName::Sasl => match spaced_string(s, i) {
            Step::Done(v, end) => Step::Done(CapabilityView::Sasl(space_separated(v)), end),
            other => other.carry(),
        },
        CapabilityName::Sieve => match spaced_string(s, i) {
            Step::Done(v, end) => Step::Done(CapabilityView::Sieve(space_separated(v)), end),
            other => other.carry(),
        },
        CapabilityName::MaxRedirects => match spaced_string(s, i) {
            Step::Done(v, end) => match unsigned(v) {
                Some(n) => Step::Done(CapabilityView::MaxRedirects(n), end),
                None => Step::Fail,
            },
            other => other.carry(),
        },
        CapabilityName::Notify => match spaced_string(s, i) {
            Step::Done(v, end) => if v.len() == 0 {
                Step::Fail
            } else {
                Step::Done(CapabilityView::Notify(split_blank(v)), end)
            },
            other => other.carry(),
        },
        CapabilityName::StartTls => Step::Done(CapabilityView::StartTls, i),
        CapabilityName::Language => match spaced_string(s, i) {
            Step::Done(v, end) => Step::Done(CapabilityView::Language(v), end),
            other => other.carry(),
        },
        CapabilityName::Version => match blanks(s, i) {
            Step::Done(_, start) => match version(s, start) {
                Step::Done(v, end) => Step::Done(CapabilityView::Version(v), end),
                other => other.carry(),
            },
            other => other.carry(),
        },
        CapabilityName::Owner => match spaced_string(s, i) {
            Step::Done(v, end) => Step::Done(CapabilityView::Owner(v), end),
            other => other.carry(),
        },
    }
}

/// A capability that the protocol does not define: its quoted name, and
/// its value if it has one.
pub open spec fn unknown_capability(s: Seq<u8>, i: int) -> Step<CapabilityView> {
    match quoted_string(s, i) {
        Step::Done(name, end) => match optional_string(s, end) {
            Step::Done(value, after) => Step::Done(CapabilityView::Unknown(name, value), after),
            other => other.carry(),
        },
        other => other.carry(),
    }
}

/// One line of a capability announcement.
pub open spec fn single_capability(s: Seq<u8>, i: int) -> Step<CapabilityView> {
    let entry = match capability_name(s, i) {
        Step::Done(name, end) => known_capability(s, end, name),
        Step::Incomplete => Step::Incomplete,
        Step::Fail => unknown_capability(s, i),
    };
    match entry {
        Step::Done(value, end) => match crlf(s, end) {
            Step::Done(_, after) => Step::Done(value, after),
            other => other.carry(),
        },
        other => other,
    }
}

/// `lines` in front of the lines that `rest` holds.
pub open spec fn lines_before<T>(lines: Seq<T>, rest: Step<(Seq<T>, ResponseView)>) -> Step<
    (Seq<T>, ResponseView),
> {
    match rest {
        Step::Done((more, response), end) => Step::Done((lines + more, response), end),
        other => other,
    }
}

/// Lines of one kind, as many as there are, and the response line that
/// ends them. What is no line of that kind must be the response line.
pub open spec fn lines_and_response<T>(
    s: Seq<u8>,
    i: int,
    line: spec_fn(Seq<u8>, int) -> Step<T>,
) -> Step<(Seq<T>, ResponseView)>
    decreases s.len() - i,
{
    match line(s, i) {
        Step::Incomplete => Step::Incomplete,
        Step::Fail => match response_oknobye(s, i) {
            Step::Done(response, end) => Step::Done((Seq::empty(), response), end),
            other => other.carry(),
        },
        Step::Done(first, next) => if i < next <= s.len() {
            lines_before(seq![first], lines_and_response(s, next, line))
        } else {
            Step::Fail
        },
    }
}

/// A capability announcement: its lines, and the response line that ends
/// it.
pub open spec fn response_capability(s: Seq<u8>, i: int) -> Step<
    (Seq<CapabilityView>, ResponseView),
> {
    lines_and_response(s, i, |s: Seq<u8>, i: int| single_capability(s, i))
}

/// Blanks and the word `ACTIVE`, or nothing.
pub open spec fn optional_active(s: Seq<u8>, i: int) -> Step<bool> {
    match blanks(s, i) {
        Step::Incomplete => Step::Incomplete,
        Step::Fail => Step::Done(false, i),
        Step::Done(_, start) => match word(s, start, "ACTIVE".spec_bytes(), true) {
            Step::Incomplete => Step::Incomplete,
            Step::Fail => Step::Done(false, i),
            Step::Done(_, end) => Step::Done(true, end),
        },
    }
}

/// One line of a list of scripts: a name that is fit to be one, and
/// whether the script is the active one.
pub open spec fn script_line(s: Seq<u8>, i: int) -> Step<(Seq<char>, bool)> {
    match sievestring(s, i, false) {
        Step::Done(name, end) => if is_bad_name(name) {
            Step::Fail
        } else {
            match optional_active(s, end) {
                Step::Done(active, after) => match crlf(s, after) {
                    Step::Done(_, eol) => Step::Done((name, active), eol),
                    other => other.carry(),
                },
                other => other.carry(),
            }
        },
        other => other.carry(),
    }
}

/// A list of scripts: its lines, and the response line that ends it.
pub open spec fn response_listscripts(s: Seq<u8>, i: int) -> Step<
    (Seq<(Seq<char>, bool)>, ResponseView),
> {
    lines_and_response(s, i, |s: Seq<u8>, i: int| script_line(s, i))
}

/// A string and the line break.
pub open spec fn string_line(s: Seq<u8>, i: int) -> Step<Seq<char>> {
    match sievestring(s, i, false) {
        Step::Done(value, end) => match crlf(s, end) {
            Step::Done(_, after) => Step::Done(value, after),
            other => other.carry(),
        },
        other => other,
    }
}

/// What a server may answer to `GETSCRIPT`.
pub ghost enum GetScriptView {
    Script(Seq<char>, ResponseView),
    Refused(ResponseView),
}

/// The answer to `GETSCRIPT`: the script and `OK`, or else `NO` or `BYE`.
pub open spec fn response_getscript(s: Seq<u8>, i: int) -> Step<GetScriptView> {
    let found: Step<GetScriptView> = match string_line(s, i) {
        Step::Done(script, end) => match response_ok(s, end) {
            Step::Done(response, after) => Step::Done(GetScriptView::Script(script, response), after),
            other => other.carry(),
        },
        other => other.carry(),
    };
    match found {
        Step::Fail => match response_nobye(s, i) {
            Step::Done(response, end) => Step::Done(GetScriptView::Refused(response), end),
            other => other.carry(),
        },
        other => other,
    }
}

/// The answer to `STARTTLS` together with the announcement that follows
/// it: `OK` and the announcement, or else `NO` or `BYE` and no
/// capabilities.
pub open spec fn response_starttls(s: Seq<u8>, i: int) -> Step<(Seq<CapabilityView>, ResponseView)> {
    let announced: Step<(Seq<CapabilityView>, ResponseView)> = match response_ok(s, i) {
        Step::Done(_, end) => response_capability(s, end),
        other => other.carry(),
    };
    match announced {
        Step::Fail => match response_nobye(s, i) {
            Step::Done(response, end) => Step::Done((Seq::empty(), response), end),
            other => other.carry(),
        },
        other => other,
    }
}

/// The end of an authentication exchange: `OK`, with or without an
/// announcement after it, or else `NO` or `BYE`. Where an announcement
/// follows, the response line is the one that ends the announcement.
pub open spec fn response_authenticate_complete(s: Seq<u8>, i: int) -> Step<
    (Option<Seq<CapabilityView>>, ResponseView),
> {
    let accepted: Step<(Option<Seq<CapabilityView>>, ResponseView)> = match response_ok(s, i) {
        Step::Done(first, end) => match response_capability(s, end) {
            Step::Done((caps, last), after) => Step::Done((Some(caps), last), after),
            Step::Incomplete => Step::Incomplete,
            Step::Fail => Step::Done((None, first), end),
        },
        other => other.carry(),
    };
    match accepted {
        Step::Fail => match response_nobye(s, i) {
            Step::Done(response, end) => Step::Done((None, response), end),
            other => other.carry(),
        },
        other => other,
    }
}

/// What a server may send within an authentication exchange.
pub ghost enum AuthLineView {
    Challenge(Seq<char>),
    Reply(ResponseView),
}

/// One line of an authentication exchange: a challenge, or else a
/// response line.
pub open spec fn response_authenticate(s: Seq<u8>, i: int) -> Step<AuthLineView> {
    match string_line(s, i) {
        Step::Done(challenge, end) => Step::Done(AuthLineView::Challenge(challenge), end),
        Step::Incomplete => Step::Incomplete,
        Step::Fail => match response_oknobye(s, i) {
            Step::Done(response, end) => Step::Done(AuthLineView::Reply(response), end),
            other => other.carry(),
        },
    }
}

} // verus!
