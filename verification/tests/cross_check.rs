use managesieve::capabilities::{Capability, Version};
use managesieve::parser::lines::{AuthLine, GetScriptReply};
use managesieve::parser::ParseResult;
use managesieve::response::{
    ExtensionItem, Quota, Response, ResponseCode, ResponseInfo, Tag,
};
use managesieve::sieve_name::SieveNameString;
use winnow::ascii::{crlf, digit1, escaped, space1, Caseless};
use winnow::binary::length_take;
use winnow::combinator::{
    alt, cut_err, delimited, opt, preceded, repeat, separated, separated_pair, terminated,
};
use winnow::error::ErrMode;
use winnow::token::take_while;
use winnow::{ModalResult, Parser, Partial};

// The grammar once more, written with parser combinators. The two ways of
// reading must agree on every buffer, whole or cut short.

type Input<'a, 'b> = &'a mut Partial<&'b str>;

fn literal_len(input: Input) -> ModalResult<u64> {
    terminated(delimited("{", digit1.parse_to(), "}"), crlf).parse_next(input)
}

fn literal(input: Input) -> ModalResult<String> {
    length_take(literal_len).map(ToOwned::to_owned).parse_next(input)
}

fn quoted(input: Input) -> ModalResult<String> {
    alt((
        "\"\"".value(String::new()),
        delimited(
            "\"",
            escaped(
                take_while(1.., |c| c != '\\' && c != '"'),
                '\\',
                alt(("\\".value("\\"), "\"".value("\""))),
            ),
            "\"",
        ),
    ))
    .parse_next(input)
}

fn string(input: Input) -> ModalResult<String> {
    alt((literal, quoted)).parse_next(input)
}

fn items(input: Input) -> ModalResult<Vec<ExtensionItem>> {
    separated(1.., item, space1).parse_next(input)
}

fn item(input: Input) -> ModalResult<ExtensionItem> {
    alt((
        string.map(ExtensionItem::String),
        digit1.parse_to().map(ExtensionItem::Number),
        delimited("(", items.map(ExtensionItem::ExtensionData), ")"),
    ))
    .parse_next(input)
}

fn is_name_char(c: char) -> bool {
    c.is_ascii_alphanumeric() || c == '-' || c == '_' || c == '.' || c == '/'
}

fn extension_name(input: Input) -> ModalResult<String> {
    alt((string, take_while(1.., is_name_char).map(|s: &str| s.to_owned()))).parse_next(input)
}

fn code(input: Input) -> ModalResult<ResponseCode> {
    delimited(
        "(",
        alt((
            alt((
                Caseless("AUTH-TOO-WEAK").value(ResponseCode::AuthTooWeak),
                Caseless("ENCRYPT-NEEDED").value(ResponseCode::EncryptNeeded),
                Caseless("QUOTA/MAXSCRIPTS").value(ResponseCode::Quota(Quota::MaxScripts)),
                Caseless("QUOTA/MAXSIZE").value(ResponseCode::Quota(Quota::MaxSize)),
                Caseless("QUOTA").value(ResponseCode::Quota(Quota::Unspecified)),
                preceded(Caseless("SASL"), cut_err(preceded(space1, string)))
                    .map(ResponseCode::Sasl),
                preceded(Caseless("REFERRAL"), cut_err(preceded(space1, string)))
                    .map(ResponseCode::Referral),
            )),
            alt((
                Caseless("TRANSITION-NEEDED").value(ResponseCode::TransitionNeeded),
                Caseless("TRYLATER").value(ResponseCode::TryLater),
                Caseless("ACTIVE").value(ResponseCode::Active),
                Caseless("NONEXISTENT").value(ResponseCode::Nonexistent),
                Caseless("ALREADYEXISTS").value(ResponseCode::AlreadyExists),
                Caseless("WARNINGS").value(ResponseCode::Warnings),
                preceded(Caseless("TAG"), cut_err(preceded(space1, string)))
                    .map(ResponseCode::Tag),
            )),
            (extension_name, opt(preceded(space1, items)))
                .map(|(name, data)| ResponseCode::Extension { name, data }),
        )),
        ")",
    )
    .parse_next(input)
}

fn info(input: Input) -> ModalResult<ResponseInfo> {
    terminated((opt(preceded(space1, code)), opt(preceded(space1, string))), crlf)
        .map(|(code, human)| ResponseInfo { code, human })
        .parse_next(input)
}

fn response_ok(input: Input) -> ModalResult<Response> {
    preceded(Caseless("OK"), info)
        .map(|info| Response { tag: Tag::Okay, info })
        .parse_next(input)
}

fn response_nobye(input: Input) -> ModalResult<Response> {
    (alt((Caseless("NO").value(Tag::No), Caseless("BYE").value(Tag::Bye))), info)
        .map(|(tag, info)| Response { tag, info })
        .parse_next(input)
}

fn response_oknobye(input: Input) -> ModalResult<Response> {
    alt((response_ok, response_nobye)).parse_next(input)
}

fn words(text: String) -> Vec<String> {
    if text.is_empty() {
        vec![]
    } else {
        text.split(' ').map(String::from).collect()
    }
}

fn version(input: Input) -> ModalResult<Version> {
    delimited(
        "\"",
        separated_pair(
            digit1.try_map(|s: &str| s.parse::<u64>()),
            ".",
            digit1.try_map(|s: &str| s.parse::<u64>()),
        )
        .map(|(major, minor)| Version { major, minor }),
        "\"",
    )
    .parse_next(input)
}

fn single_capability(input: Input) -> ModalResult<Capability> {
    terminated(
        alt((
            preceded(Caseless("\"IMPLEMENTATION\""), cut_err(preceded(space1, string)))
                .map(Capability::Implementation),
            preceded(Caseless("\"SASL\""), cut_err(preceded(space1, string.map(words))))
                .map(Capability::Sasl),
            preceded(Caseless("\"SIEVE\""), cut_err(preceded(space1, string.map(words))))
                .map(Capability::Sieve),
            preceded(
                Caseless("\"MAXREDIRECTS\""),
                cut_err(preceded(space1, string.try_map(|s| s.parse::<u64>()))),
            )
            .map(Capability::MaxRedirects),
            preceded(
                Caseless("\"NOTIFY\""),
                cut_err(preceded(
                    space1,
                    string.verify(|s: &String| !s.is_empty()).map(words),
                )),
            )
            .map(Capability::Notify),
            alt((
                Caseless("\"STARTTLS\"").value(Capability::StartTls),
                preceded(Caseless("\"LANGUAGE\""), cut_err(preceded(space1, string)))
                    .map(Capability::Language),
                preceded(Caseless("\"VERSION\""), cut_err(preceded(space1, version)))
                    .map(Capability::Version),
                preceded(Caseless("\"OWNER\""), cut_err(preceded(space1, string)))
                    .map(Capability::Owner),
                (quoted, opt(preceded(space1, string)))
                    .map(|(name, value)| Capability::Unknown(name, value)),
            )),
        )),
        crlf,
    )
    .parse_next(input)
}

fn response_capability(input: Input) -> ModalResult<(Vec<Capability>, Response)> {
    (repeat(0.., single_capability), response_oknobye).parse_next(input)
}

fn response_listscripts(input: Input) -> ModalResult<(Vec<(SieveNameString, bool)>, Response)> {
    (
        repeat(
            0..,
            terminated(
                (
                    string.verify_map(|s| SieveNameString::new(s).ok()),
                    opt((space1, Caseless("ACTIVE"))).map(|o| o.is_some()),
                ),
                crlf,
            ),
        ),
        response_oknobye,
    )
        .parse_next(input)
}

fn response_getscript(input: Input) -> ModalResult<GetScriptReply> {
    alt((
        separated_pair(string, crlf, response_ok)
            .map(|(script, response)| GetScriptReply::Script(script, response)),
        response_nobye.map(GetScriptReply::Refused),
    ))
    .parse_next(input)
}

fn response_authenticate(input: Input) -> ModalResult<AuthLine> {
    alt((
        terminated(string, crlf).map(AuthLine::Challenge),
        response_oknobye.map(AuthLine::Reply),
    ))
    .parse_next(input)
}

fn by_combinators<T>(
    parser: for<'a, 'b> fn(&'a mut Partial<&'b str>) -> ModalResult<T>,
    text: &str,
) -> ParseResult<T> {
    let mut input = Partial::new(text);
    match parser(&mut input) {
        Ok(value) => ParseResult::Success(value, text.len() - input.len()),
        Err(ErrMode::Incomplete(_)) => ParseResult::Incomplete,
        Err(_) => ParseResult::Error,
    }
}

/// The buffers on which the two ways of reading are held against each
/// other: every message, every message cut short, and every message with
/// one of its bytes replaced.
fn buffers(messages: &[&str]) -> Vec<String> {
    let replacements = ['x', ' ', '"', '\\', '(', ')', '{', '}', '\r', '\n', '0', 'o', '+', '/'];
    let mut all = Vec::new();
    for message in messages {
        for len in 0..=message.len() {
            all.push(message[..len].to_string());
        }
        for at in 0..message.len() {
            for replacement in replacements {
                let mut changed = String::new();
                changed.push_str(&message[..at]);
                changed.push(replacement);
                changed.push_str(&message[at + 1..]);
                all.push(changed);
            }
        }
        for at in 0..=message.len() {
            for inserted in [" ", "\r\n", "\"", "x"] {
                let mut changed = String::new();
                changed.push_str(&message[..at]);
                changed.push_str(inserted);
                changed.push_str(&message[at..]);
                all.push(changed);
            }
        }
    }
    all
}

fn agree<T: PartialEq + std::fmt::Debug>(
    messages: &[&str],
    by_hand: fn(&[u8], usize) -> ParseResult<T>,
    reference: for<'a, 'b> fn(&'a mut Partial<&'b str>) -> ModalResult<T>,
) {
    for buffer in buffers(messages) {
        assert_eq!(
            by_hand(buffer.as_bytes(), 0),
            by_combinators(reference, &buffer),
            "on {:?}",
            buffer
        );
    }
}

const RESPONSES: [&str; 14] = [
    "OK\r\n",
    "no\r\n",
    "Bye\r\n",
    "OK \"done\"\r\n",
    "OK (WARNINGS) \"line 3\"\r\n",
    "NO (QUOTA/MAXSIZE) \"too big\"\r\n",
    "NO (quota/maxscripts)\r\n",
    "NO (QUOTA) {5}\r\nhello\r\n",
    "OK (SASL \"cnNwYXV0aD1lYQ==\")\r\n",
    "BYE (REFERRAL \"sieve://example.org\") \"moved\"\r\n",
    "OK (TAG {3}\r\nabc) \"x\"\r\n",
    "NO (X-CODE \"a\" 12 (\"b\" (3))) \"ext\"\r\n",
    "NO (\"quoted name\") \"ext\"\r\n",
    "NO  (TRYLATER)\t \"a\\\"b\\\\c\"\r\n",
];

#[test]
fn strings_agree() {
    let messages = ["\"\"", "\"hello\"", "\"a\\\"b\\\\c\"", "{0}\r\n", "{5}\r\nhello", "{12}\r\nhello\r\nworld"];
    agree(&messages, managesieve::parser::strings::sievestring_s2c, string);
    agree(&messages, managesieve::parser::strings::quoted_string, quoted);
    agree(&messages, managesieve::parser::strings::literal_s2c, literal);
    agree(&messages, managesieve::parser::strings::literal_s2c_len, literal_len);
}

#[test]
fn response_codes_agree() {
    let messages = [
        "(QUOTA)",
        "(quota/MaxSize)",
        "(AUTH-TOO-WEAK)",
        "(SASL \"abcd\")",
        "(TAG {2}\r\nab)",
        "(REFERRAL  \"sieve://x\")",
        "(X-A)",
        "(X-A 1 2 \"three\" (4 (5)))",
        "(\"X B\" (\"c\"))",
        "(NONEXISTENT)",
    ];
    agree(&messages, managesieve::parser::responses::code, code);
    agree(&messages, managesieve::parser::responses::extension_item, item);
}

#[test]
fn response_lines_agree() {
    agree(&RESPONSES, managesieve::parser::responses::response_oknobye, response_oknobye);
    agree(&RESPONSES, managesieve::parser::responses::response_ok, response_ok);
    agree(&RESPONSES, managesieve::parser::responses::response_nobye, response_nobye);
}

#[test]
fn capability_lines_agree() {
    let messages = [
        "\"IMPLEMENTATION\" \"Example 1.0\"\r\n",
        "\"implementation\" {7}\r\nExample\r\n",
        "\"SASL\" \"PLAIN LOGIN\"\r\n",
        "\"SASL\" \"\"\r\n",
        "\"SIEVE\" \"fileinto  reject \"\r\n",
        "\"MAXREDIRECTS\" \"42\"\r\n",
        "\"MAXREDIRECTS\" \"+7\"\r\n",
        "\"MAXREDIRECTS\" \"18446744073709551616\"\r\n",
        "\"NOTIFY\" \"mailto xmpp\"\r\n",
        "\"NOTIFY\" \"\"\r\n",
        "\"STARTTLS\"\r\n",
        "\"LANGUAGE\" \"en\"\r\n",
        "\"VERSION\" \"1.0\"\r\n",
        "\"VERSION\" \"01.18446744073709551615\"\r\n",
        "\"OWNER\" \"me\"\r\n",
        "\"X-OTHER\"\r\n",
        "\"X-OTHER\" \"value\"\r\n",
    ];
    agree(&messages, managesieve::parser::lines::single_capability, single_capability);
}

#[test]
fn announcements_agree() {
    let messages = [
        "OK\r\n",
        "\"IMPLEMENTATION\" \"Example\"\r\n\"SIEVE\" \"\"\r\n\"VERSION\" \"1.0\"\r\nOK\r\n",
        "\"STARTTLS\"\r\n\"X\" \"y\"\r\nNO (TRYLATER) \"later\"\r\n",
        "\"X\"\r\nBYE\r\n",
    ];
    agree(&messages, managesieve::parser::lines::response_capability, response_capability);
}

#[test]
fn lists_of_scripts_agree() {
    let messages = [
        "OK\r\n",
        "\"a\" ACTIVE\r\n\"b\"\r\nOK\r\n",
        "{2}\r\nab active\r\n\"c d\"\r\nOK \"2 scripts\"\r\n",
        "\"a\"\r\nNO\r\n",
    ];
    agree(&messages, managesieve::parser::lines::response_listscripts, response_listscripts);
}

#[test]
fn answers_to_getscript_agree() {
    let messages = [
        "\"keep;\"\r\nOK\r\n",
        "{7}\r\nkeep;\r\n\r\nOK (WARNINGS) \"hm\"\r\n",
        "NO (NONEXISTENT) \"no such script\"\r\n",
        "BYE\r\n",
        "\"keep;\"\r\nNO\r\n",
    ];
    agree(&messages, managesieve::parser::lines::response_getscript, response_getscript);
}

#[test]
fn lines_of_an_exchange_agree() {
    let messages = [
        "\"aGVsbG8=\"\r\n",
        "{8}\r\naGVsbG8=\r\n",
        "OK (SASL \"aGVsbG8=\")\r\n",
        "NO (AUTH-TOO-WEAK) \"weak\"\r\n",
        "OK\r\n",
        "BYE\r\n",
    ];
    agree(&messages, managesieve::parser::lines::response_authenticate, response_authenticate);
}
