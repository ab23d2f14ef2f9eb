use managesieve::capabilities::{Capability, Version};
use managesieve::parser::grammar::Atom;
use managesieve::parser::lines::{
    response_authenticate, response_authenticate_complete, response_capability,
    response_getscript, response_listscripts, response_starttls, single_capability, AuthLine,
    GetScriptReply,
};
use managesieve::parser::responses::{atom, code, response_oknobye};
use managesieve::parser::strings::{
    literal_c2s, literal_c2s_len, literal_s2c, literal_s2c_len, quoted_string, sievestring_c2s,
    sievestring_s2c,
};
use managesieve::parser::ParseResult;
use managesieve::response::{
    ExtensionItem, Quota, Response, ResponseCode, ResponseInfo, Tag,
};
use managesieve::sieve_name::SieveNameString;

fn is_error<T>(result: &ParseResult<T>) -> bool {
    matches!(result, ParseResult::Error)
}

fn is_success<T>(result: &ParseResult<T>, len: usize) -> bool {
    matches!(result, ParseResult::Success(_, end) if *end == len)
}

fn name(text: &str) -> SieveNameString {
    SieveNameString::from_str(text).unwrap()
}

#[test]
fn test_atom() {
    assert_eq!(atom(b"SASL", 0), ParseResult::Success(Atom::Sasl, 4));
    assert!(is_error(&atom(b"ABCDE", 0)));
}

#[test]
fn test_literal_s2c_len() {
    assert_eq!(literal_s2c_len(b"{3}\r\n", 0), ParseResult::Success(3, 5));
    assert_eq!(literal_s2c_len(b"{0}\r\n", 0), ParseResult::Success(0, 5));
    assert_eq!(literal_s2c_len(b"{3}\r\nab", 0), ParseResult::Success(3, 5));
    assert_eq!(literal_s2c_len(b"{3}", 0), ParseResult::Incomplete);
}

#[test]
fn test_literal_s2c() {
    assert_eq!(literal_s2c(b"{3}\r\nabc", 0), ParseResult::Success("abc".into(), 8));
    assert_eq!(literal_s2c(b"{0}\r\n", 0), ParseResult::Success("".into(), 5));
    assert_eq!(literal_s2c(b"{4}\r\nabc", 0), ParseResult::Incomplete);
}

#[test]
fn test_sievestring_s2c() {
    assert_eq!(sievestring_s2c(b"{3}\r\nabc", 0), ParseResult::Success("abc".into(), 8));
    assert_eq!(sievestring_s2c(b"\"hello\"", 0), ParseResult::Success("hello".into(), 7));
}

#[test]
fn test_literal_c2s_len() {
    assert_eq!(literal_c2s_len(b"{3+}\r\n", 0), ParseResult::Success(3, 6));
}

#[test]
fn test_literal_c2s() {
    assert_eq!(literal_c2s(b"{3+}\r\nabc", 0), ParseResult::Success("abc".into(), 9));
    assert_eq!(literal_c2s(b"{4+}\r\nabc", 0), ParseResult::Incomplete);
}

#[test]
fn test_sievestring_c2s() {
    assert_eq!(sievestring_c2s(b"{3+}\r\nabc", 0), ParseResult::Success("abc".into(), 9));
    assert_eq!(sievestring_c2s(b"\"hello\"", 0), ParseResult::Success("hello".into(), 7));
    assert!(is_error(&sievestring_c2s(b"{a3+}\r\nabc", 0)));
}

#[test]
fn test_code() {
    assert_eq!(
        code(b"(QUOTA)", 0),
        ParseResult::Success(ResponseCode::Quota(Quota::Unspecified), 7)
    );
    assert_eq!(
        code(b"(TAG {16}\r\nSTARTTLS-SYNC-42)", 0),
        ParseResult::Success(ResponseCode::Tag("STARTTLS-SYNC-42".to_string()), 28)
    );
    assert_eq!(
        code(b"(TAG \"STARTTLS-SYNC-42\")", 0),
        ParseResult::Success(ResponseCode::Tag("STARTTLS-SYNC-42".to_string()), 24)
    );
}

#[test]
fn test_quoted_string() {
    assert_eq!(
        quoted_string(b"\"STARTTLSSYNC-42\"", 0),
        ParseResult::Success("STARTTLSSYNC-42".into(), 17)
    );
    assert_eq!(quoted_string(b"\"\"", 0), ParseResult::Success("".into(), 2));
    assert!(is_error(&quoted_string(b"hello", 0)));
}

#[test]
fn test_response() {
    assert!(is_success(&response_oknobye(b"ok\r\n", 0), 4));
    assert!(is_success(&response_oknobye(b"nO\r\n", 0), 4));
    assert!(is_success(&response_oknobye(b"BYE\r\n", 0), 5));
    assert!(is_success(&response_oknobye(b"ok (QUOTA)\r\n", 0), 12));
    assert!(is_success(&response_oknobye(b"ok (QUOTA) \"hello\"\r\n", 0), 20));
    assert_eq!(response_oknobye(b"ok", 0), ParseResult::Incomplete);
    assert!(is_error(&response_oknobye(b" ok\r\n", 0)));
    assert!(is_error(&response_oknobye(b"ok (\r\n", 0)));
    assert!(is_error(&response_oknobye(b"ok (QUOTA\r\n", 0)));
    assert!(is_error(&response_oknobye(b"ok (QUOTA/)\r\n", 0)));
}

#[test]
fn test_response_getscript() {
    assert!(is_success(&response_getscript(b"\"hello\"\r\nOK\r\n", 0), 13));
    assert!(is_success(&response_getscript(b"NO\r\n", 0), 4));
    assert!(is_error(&response_getscript(b"\"hello\"\r\nBYE\r\n", 0)));
}

#[test]
fn test_response_listscripts() {
    assert_eq!(
        response_listscripts(b"\"script1\"\r\n\"script2\"\r\nOK\r\n", 0),
        ParseResult::Success(
            (vec![(name("script1"), false), (name("script2"), false)], Response::new(Tag::Okay)),
            26
        )
    );
    assert_eq!(
        response_listscripts(b"\"script1\" ACTIVE\r\n\"script2\"\r\nOK\r\n", 0),
        ParseResult::Success(
            (vec![(name("script1"), true), (name("script2"), false)], Response::new(Tag::Okay)),
            33
        )
    );
    assert_eq!(
        response_listscripts(b"\"script1\" active\r\n\"script2\"\r\nOK\r\n", 0),
        ParseResult::Success(
            (vec![(name("script1"), true), (name("script2"), false)], Response::new(Tag::Okay)),
            33
        )
    );
    assert_eq!(
        response_listscripts(b"OK\r\n", 0),
        ParseResult::Success((vec![], Response::new(Tag::Okay)), 4)
    );
    assert_eq!(
        response_listscripts(b"BYE\r\n", 0),
        ParseResult::Success((vec![], Response::new(Tag::Bye)), 5)
    );
}

#[test]
fn test_single_capability() {
    assert!(is_success(&single_capability(b"\"CAPABILITY1\"\r\n", 0), 15));
    assert!(is_success(&single_capability(b"\"CAPABILITY2\" \"a b c d e\"\r\n", 0), 27));
    assert!(is_error(&single_capability(b"\"CAPABILITY2\" \r\n", 0)));
}

#[test]
fn test_response_capabilities() {
    let input = b"\"IMPLEMENTATION\" \"Dovecot Pigeonhole\"\r\n\
\"SIEVE\" \"fileinto reject envelope\"\r\n\
\"NOTIFY\" \"mailto\"\r\n\
\"SASL\" \"\"\r\n\
\"MAXREDIRECTS\" \"42\"\r\n\
\"STARTTLS\"\r\n\
\"VERSION\" \"1.0\"\r\n\
OK \"Dovecot ready.\"\r\n";
    assert_eq!(
        response_capability(input, 0),
        ParseResult::Success(
            (
                vec![
                    Capability::Implementation("Dovecot Pigeonhole".into()),
                    Capability::Sieve(vec![
                        "fileinto".into(),
                        "reject".into(),
                        "envelope".into(),
                    ]),
                    Capability::Notify(vec!["mailto".into()]),
                    Capability::Sasl(vec![]),
                    Capability::MaxRedirects(42),
                    Capability::StartTls,
                    Capability::Version(Version { major: 1, minor: 0 }),
                ],
                Response {
                    tag: Tag::Okay,
                    info: ResponseInfo { code: None, human: Some("Dovecot ready.".into()) },
                },
            ),
            input.len()
        )
    );
}

#[test]
fn test_response_starttls() {
    let input = b"OK\r\n\"CAPABILITY1\"\r\n\"CAPABILITY2\"\r\nOK\r\n";
    assert!(is_success(&response_starttls(input, 0), input.len()));
    assert!(is_success(&response_starttls(b"BYE\r\n", 0), 5));
}

#[test]
fn test_response_authenticate_initial() {
    assert_eq!(
        response_authenticate(b"{4}\r\nabcd\r\n", 0),
        ParseResult::Success(AuthLine::Challenge("abcd".into()), 11)
    );
    assert_eq!(
        response_authenticate(b"BYE\r\n", 0),
        ParseResult::Success(AuthLine::Reply(Response::new(Tag::Bye)), 5)
    );
}

#[test]
fn test_response_authenticate_complete() {
    let input = b"OK\r\n\"CAPABILITY1\"\r\n\"CAPABILITY2\"\r\nOK\r\n";
    assert!(is_success(&response_authenticate_complete(input, 0), input.len()));
    assert!(is_success(&response_authenticate_complete(b"BYE\r\n", 0), 5));
}

#[test]
fn tag_is_read_in_any_case() {
    let expected = Response::new(Tag::Okay);
    assert_eq!(response_oknobye(b"ok\r\n", 0), ParseResult::Success(expected.clone(), 4));
    assert_eq!(response_oknobye(b"OK\r\n", 0), ParseResult::Success(expected.clone(), 4));
    assert_eq!(response_oknobye(b"Ok\r\n", 0), ParseResult::Success(expected, 4));
}

#[test]
fn response_with_code_and_text() {
    assert_eq!(
        response_oknobye(b"OK (QUOTA) \"hello\"\r\n", 0),
        ParseResult::Success(
            Response {
                tag: Tag::Okay,
                info: ResponseInfo {
                    code: Some(ResponseCode::Quota(Quota::Unspecified)),
                    human: Some("hello".into()),
                },
            },
            20
        )
    );
}

#[test]
fn list_of_scripts_with_an_active_one() {
    assert_eq!(
        response_listscripts(b"\"a\" ACTIVE\r\n\"b\"\r\nOK\r\n", 0),
        ParseResult::Success(
            (vec![(name("a"), true), (name("b"), false)], Response::new(Tag::Okay)),
            21
        )
    );
}

#[test]
fn literal_is_never_cut_short() {
    let whole = b"{5}\r\nhello";
    for len in 0..whole.len() {
        assert_eq!(literal_s2c(&whole[..len], 0), ParseResult::Incomplete);
    }
    assert_eq!(literal_s2c(whole, 0), ParseResult::Success("hello".into(), 10));
}

#[test]
fn literal_counts_bytes() {
    assert_eq!(
        literal_s2c("{2}\r\n\u{e9}".as_bytes(), 0),
        ParseResult::Success("\u{e9}".into(), 7)
    );
    assert!(is_error(&literal_s2c("{1}\r\n\u{e9}".as_bytes(), 0)));
}

#[test]
fn quoted_string_with_escapes() {
    assert_eq!(
        quoted_string(b"\"a\\\"b\\\\c\"", 0),
        ParseResult::Success("a\"b\\c".into(), 9)
    );
    assert!(is_error(&quoted_string(b"\"a\\nb\"", 0)));
    assert_eq!(quoted_string(b"\"abc", 0), ParseResult::Incomplete);
    assert_eq!(quoted_string(b"\"abc\\", 0), ParseResult::Incomplete);
}

#[test]
fn literal_length_must_fit() {
    assert!(is_error(&literal_s2c_len(b"{18446744073709551616}\r\n", 0)));
    assert_eq!(
        literal_s2c_len(b"{18446744073709551615}\r\n", 0),
        ParseResult::Success(u64::MAX, 24)
    );
}

#[test]
fn unknown_response_code_is_kept() {
    assert_eq!(
        code(b"(X-FOO)", 0),
        ParseResult::Success(ResponseCode::Extension { name: "X-FOO".into(), data: None }, 7)
    );
    assert_eq!(
        code(b"(\"X-BAR\" \"a\" 12 (\"b\" 3))", 0),
        ParseResult::Success(
            ResponseCode::Extension {
                name: "X-BAR".into(),
                data: Some(vec![
                    ExtensionItem::String("a".into()),
                    ExtensionItem::Number(12),
                    ExtensionItem::ExtensionData(vec![
                        ExtensionItem::String("b".into()),
                        ExtensionItem::Number(3),
                    ]),
                ]),
            },
            24
        )
    );
    assert!(is_success(&response_oknobye(b"NO (X-FOO) \"why\"\r\n", 0), 18));
}

#[test]
fn response_codes_with_data() {
    assert_eq!(
        code(b"(SASL \"cnNwYXV0aD1lYQ==\")", 0),
        ParseResult::Success(ResponseCode::Sasl("cnNwYXV0aD1lYQ==".into()), 25)
    );
    assert_eq!(
        code(b"(referral \"sieve://example.org\")", 0),
        ParseResult::Success(ResponseCode::Referral("sieve://example.org".into()), 32)
    );
    assert!(is_error(&code(b"(SASL)", 0)));
    assert_eq!(code(b"(QUOTA", 0), ParseResult::Incomplete);
    assert_eq!(
        code(b"(quota/maxsize)", 0),
        ParseResult::Success(ResponseCode::Quota(Quota::MaxSize), 15)
    );
    assert_eq!(
        code(b"(QUOTA/MAXSCRIPTS)", 0),
        ParseResult::Success(ResponseCode::Quota(Quota::MaxScripts), 18)
    );
}

#[test]
fn capability_values() {
    assert_eq!(
        single_capability(b"\"sasl\" \"PLAIN  LOGIN\"\r\n", 0),
        ParseResult::Success(
            Capability::Sasl(vec!["PLAIN".into(), "".into(), "LOGIN".into()]),
            23
        )
    );
    assert_eq!(
        single_capability(b"\"MAXREDIRECTS\" \"+7\"\r\n", 0),
        ParseResult::Success(Capability::MaxRedirects(7), 21)
    );
    assert!(is_error(&single_capability(b"\"MAXREDIRECTS\" \"x\"\r\n", 0)));
    assert!(is_error(&single_capability(b"\"MAXREDIRECTS\" \"+\"\r\n", 0)));
    assert!(is_error(&single_capability(b"\"NOTIFY\" \"\"\r\n", 0)));
    assert!(is_error(&single_capability(b"\"IMPLEMENTATION\"\r\n", 0)));
    assert_eq!(
        single_capability(b"\"VERSION\" \"1.10\"\r\n", 0),
        ParseResult::Success(Capability::Version(Version { major: 1, minor: 10 }), 18)
    );
    assert_eq!(
        single_capability(b"\"X-THING\" {3}\r\nabc\r\n", 0),
        ParseResult::Success(Capability::Unknown("X-THING".into(), Some("abc".into())), 20)
    );
    assert_eq!(single_capability(b"\"IMPLEM", 0), ParseResult::Incomplete);
}

#[test]
fn script_with_a_bad_name_is_refused() {
    assert!(is_error(&response_listscripts(b"\"a\x07b\"\r\nOK\r\n", 0)));
}

#[test]
fn script_and_answer() {
    assert_eq!(
        response_getscript(b"{4}\r\nkeep\r\nOK\r\n", 0),
        ParseResult::Success(
            GetScriptReply::Script("keep".into(), Response::new(Tag::Okay)),
            15
        )
    );
    assert_eq!(
        response_getscript(b"NO (NONEXISTENT) \"no such script\"\r\n", 0),
        ParseResult::Success(
            GetScriptReply::Refused(Response {
                tag: Tag::No,
                info: ResponseInfo {
                    code: Some(ResponseCode::Nonexistent),
                    human: Some("no such script".into()),
                },
            }),
            35
        )
    );
}

#[test]
fn parsing_starts_where_it_is_told() {
    assert_eq!(quoted_string(b"xx\"ab\"yy", 2), ParseResult::Success("ab".into(), 6));
}
