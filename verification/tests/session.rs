use managesieve::authenticate::{AuthStep, Authenticate};
use managesieve::capabilities::{CapabilitiesError, Capability, Version};
use managesieve::connection::{handle_bye, CheckScript, Connection, HaveSpace, PutScript};
use managesieve::error::{IoFailure, SieveError};
use managesieve::parser::lines::{
    response_authenticate, response_capability, response_getscript, response_listscripts,
    AuthLine,
};
use managesieve::parser::responses::{response_nobye, response_oknobye};
use managesieve::parser::ParseResult;
use managesieve::reader::{complete, Parsed, ResponseBuffer};
use managesieve::response::{
    ExtensionItem, Quota, Response, ResponseCode, ResponseInfo, Tag,
};
use managesieve::sasl::{
    fmt_other, InitialSaslState, OneShot, Sasl, SaslError, SaslState,
};
use managesieve::sieve_name::SieveNameString;
use managesieve::state::{Authenticated, NoTls, Tls, Unauthenticated};

fn greeting() -> Vec<Capability> {
    vec![
        Capability::Implementation("Example".into()),
        Capability::Sasl(vec!["PLAIN".into()]),
        Capability::Sieve(vec!["fileinto".into()]),
        Capability::StartTls,
        Capability::Version(Version { major: 1, minor: 0 }),
    ]
}

fn connected() -> Connection<NoTls, Unauthenticated> {
    Connection::connect(greeting(), Response::new(Tag::Okay)).unwrap()
}

fn plain() -> OneShot {
    OneShot { name: "PLAIN".into(), initial: b"\0user\0pass".to_vec() }
}

fn authenticated() -> Connection<NoTls, Authenticated> {
    let mut sasl = plain();
    let (exchange, _) = connected().authenticate(&sasl).unwrap();
    let step = exchange.step(&mut sasl, AuthLine::Reply(Response::new(Tag::Okay)));
    let AuthStep::Refresh { completed, .. } = step else {
        panic!("the exchange should be complete");
    };
    match completed.finish::<std::convert::Infallible>(greeting(), Response::new(Tag::Okay)) {
        Ok(Authenticate::Okay { connection }) => connection,
        _ => panic!("the client should be authenticated"),
    }
}

fn line(bytes: &[u8]) -> Response {
    match response_oknobye(bytes, 0) {
        ParseResult::Success(response, end) if end == bytes.len() => response,
        _ => panic!("not a response line"),
    }
}

fn auth_line(bytes: &[u8]) -> AuthLine {
    match response_authenticate(bytes, 0) {
        ParseResult::Success(line, end) if end == bytes.len() => line,
        _ => panic!("not a line of an authentication exchange"),
    }
}

fn info(code: Option<ResponseCode>, human: Option<&str>) -> ResponseInfo {
    ResponseInfo { code, human: human.map(String::from) }
}

struct Failing;

impl Sasl for Failing {
    type Error = String;

    fn name(&self) -> String {
        "X-FAILING".into()
    }

    fn init(&self) -> InitialSaslState {
        InitialSaslState::Absent
    }

    fn resume(&mut self, _challenge: Vec<u8>) -> Result<SaslState, String> {
        Err("boom".into())
    }
}

struct TwoRounds {
    round: u32,
}

impl Sasl for TwoRounds {
    type Error = String;

    fn name(&self) -> String {
        "X-TWO".into()
    }

    fn init(&self) -> InitialSaslState {
        InitialSaslState::Yielded(b"first".to_vec())
    }

    fn resume(&mut self, challenge: Vec<u8>) -> Result<SaslState, String> {
        self.round += 1;
        match self.round {
            1 => Ok(SaslState::Yielded(challenge)),
            2 => Ok(SaslState::CompleteWithFinalResponse(b"last".to_vec())),
            _ => Ok(SaslState::Complete),
        }
    }
}

#[test]
fn greeting_opens_the_session() {
    let connection = connected();
    assert_eq!(connection.capabilities().implementation, "Example");
    assert!(connection.capabilities().start_tls);
    assert_eq!(connection.capabilities().sasl, vec!["PLAIN".to_string()]);
}

#[test]
fn greeting_that_is_refused() {
    let no = line(b"NO \"go away\"\r\n");
    assert_eq!(
        Connection::connect(greeting(), no).err(),
        Some(SieveError::UnexpectedNo { info: info(None, Some("go away")) })
    );
    let bye = line(b"BYE (TRYLATER) \"busy\"\r\n");
    assert_eq!(
        Connection::connect(greeting(), bye).err(),
        Some(SieveError::Bye { info: info(Some(ResponseCode::TryLater), Some("busy")) })
    );
    assert_eq!(
        Connection::connect(vec![], Response::new(Tag::Okay)).err(),
        Some(SieveError::CapabilitiesError(CapabilitiesError::MissingImplementation))
    );
}

#[test]
fn bye_ends_the_session() {
    assert_eq!(handle_bye(Response::new(Tag::Okay)), Ok(Response::new(Tag::Okay)));
    assert_eq!(handle_bye(Response::new(Tag::No)), Ok(Response::new(Tag::No)));
    assert_eq!(
        handle_bye(line(b"BYE \"bye\"\r\n")),
        Err(SieveError::Bye { info: info(None, Some("bye")) })
    );
}

#[test]
fn start_tls_replaces_the_capabilities() {
    let connection = connected();
    assert!(connection.capabilities().start_tls);
    let (starting, send) = connection.start_tls();
    assert_eq!(send, "STARTTLS\r\n");
    let handshake = starting.finish(Response::new(Tag::Okay)).unwrap();
    let after = vec![
        Capability::Implementation("Example".into()),
        Capability::Sieve(vec![]),
        Capability::Version(Version { major: 1, minor: 0 }),
    ];
    let secured: Connection<Tls, Unauthenticated> =
        handshake.finish(after, Response::new(Tag::Okay)).unwrap();
    assert!(!secured.capabilities().start_tls);
    assert!(secured.capabilities().sasl.is_empty());
}

#[test]
fn start_tls_that_is_refused() {
    assert_eq!(
        connected().start_tls().0.finish(Response::new(Tag::No)).err(),
        Some(SieveError::UnexpectedNo { info: info(None, None) })
    );
    assert_eq!(
        connected().start_tls().0.finish(Response::new(Tag::Bye)).err(),
        Some(SieveError::Bye { info: info(None, None) })
    );
    let handshake = connected().start_tls().0.finish(Response::new(Tag::Okay)).unwrap();
    assert_eq!(
        handshake.finish(vec![Capability::StartTls], Response::new(Tag::Okay)).err(),
        Some(SieveError::CapabilitiesError(CapabilitiesError::MissingImplementation))
    );
}

fn script_name() -> SieveNameString {
    SieveNameString::from_str("vacation").unwrap()
}

fn have_space(response: Response) -> Result<HaveSpace, SieveError> {
    let name = script_name();
    let (pending, send) = authenticated().have_space(name.as_sieve_name_str(), 2048);
    assert_eq!(send, "HAVESPACE {8+}\r\nvacation 2048\r\n");
    pending.finish(response).map(|(_, outcome)| outcome)
}

fn put_script(response: Response) -> Result<PutScript, SieveError> {
    let name = script_name();
    let (pending, send) = authenticated().put_scripts(name.as_sieve_name_str(), "keep;");
    assert_eq!(send, "PUTSCRIPT {8+}\r\nvacation {5+}\r\nkeep;\r\n");
    pending.finish(response).map(|(_, outcome)| outcome)
}

fn check_script(response: Response) -> Result<CheckScript, SieveError> {
    let (pending, send) = authenticated().check_script("keep;");
    assert_eq!(send, "CHECKSCRIPT {5+}\r\nkeep;\r\n");
    pending.finish(response).map(|(_, outcome)| outcome)
}

#[test]
fn have_space_with_too_little_quota() {
    let name = script_name();
    let (pending, _) = authenticated().have_space(name.as_sieve_name_str(), 1 << 20);
    let response = line(b"NO (QUOTA/MAXSIZE) \"too big\"\r\n");
    let (connection, outcome) = pending.finish(response).unwrap();
    assert_eq!(
        outcome,
        HaveSpace::InsufficientQuota { quota: Quota::MaxSize, message: Some("too big".into()) }
    );
    assert_eq!(connection.capabilities().implementation, "Example");
}

#[test]
fn have_space_answers() {
    assert_eq!(have_space(Response::new(Tag::Okay)), Ok(HaveSpace::Okay));
    assert_eq!(
        have_space(Response::new(Tag::No)),
        Ok(HaveSpace::InsufficientQuota { quota: Quota::Unspecified, message: None })
    );
    assert_eq!(
        have_space(line(b"NO (TRYLATER)\r\n")),
        Ok(HaveSpace::InsufficientQuota { quota: Quota::Unspecified, message: None })
    );
    assert_eq!(
        have_space(line(b"NO (QUOTA/MAXSCRIPTS)\r\n")),
        Ok(HaveSpace::InsufficientQuota { quota: Quota::MaxScripts, message: None })
    );
    assert_eq!(
        have_space(Response::new(Tag::Bye)),
        Err(SieveError::Bye { info: info(None, None) })
    );
}

#[test]
fn put_script_answers() {
    assert_eq!(put_script(Response::new(Tag::Okay)), Ok(PutScript::Okay { warnings: None }));
    assert_eq!(
        put_script(line(b"OK (WARNINGS) \"line 8: unused\"\r\n")),
        Ok(PutScript::Okay { warnings: Some("line 8: unused".into()) })
    );
    assert_eq!(
        put_script(line(b"OK \"stored\"\r\n")),
        Ok(PutScript::Okay { warnings: None })
    );
    assert_eq!(
        put_script(line(b"NO (QUOTA) \"full\"\r\n")),
        Ok(PutScript::InsufficientQuota {
            quota: Quota::Unspecified,
            message: Some("full".into())
        })
    );
    assert_eq!(
        put_script(line(b"NO \"line 2: oops\"\r\n")),
        Ok(PutScript::InvalidScript { error: Some("line 2: oops".into()) })
    );
    assert!(put_script(Response::new(Tag::Bye)).is_err());
}

#[test]
fn check_script_answers() {
    assert_eq!(
        check_script(line(b"OK (WARNINGS) \"careful\"\r\n")),
        Ok(CheckScript::Okay { warnings: Some("careful".into()) })
    );
    assert_eq!(
        check_script(line(b"NO (QUOTA) \"bad\"\r\n")),
        Ok(CheckScript::InvalidScript { error: Some("bad".into()) })
    );
    assert!(check_script(Response::new(Tag::Bye)).is_err());
}

#[test]
fn list_scripts_answers() {
    let bytes = b"\"a\" ACTIVE\r\n\"b\"\r\nOK\r\n";
    let ParseResult::Success((scripts, response), _) = response_listscripts(bytes, 0) else {
        panic!("not a list of scripts");
    };
    let (pending, send) = authenticated().list_scripts();
    assert_eq!(send, "LISTSCRIPTS\r\n");
    let (_, listed) = pending.finish(scripts, response).unwrap();
    assert_eq!(
        listed,
        vec![
            (SieveNameString::from_str("a").unwrap(), true),
            (SieveNameString::from_str("b").unwrap(), false),
        ]
    );
    assert_eq!(
        authenticated().list_scripts().0.finish(vec![], Response::new(Tag::No)).err(),
        Some(SieveError::UnexpectedNo { info: info(None, None) })
    );
}

fn get_script(bytes: &[u8]) -> Result<Option<String>, SieveError> {
    let ParseResult::Success(reply, _) = response_getscript(bytes, 0) else {
        panic!("not an answer");
    };
    let name = script_name();
    let (pending, send) = authenticated().get_script(name.as_sieve_name_str());
    assert_eq!(send, "GETSCRIPT {8+}\r\nvacation\r\n");
    pending.finish(reply).map(|(_, script)| script)
}

#[test]
fn get_script_answers() {
    assert_eq!(get_script(b"\"keep;\"\r\nOK\r\n"), Ok(Some("keep;".to_string())));
    assert_eq!(get_script(b"NO (NONEXISTENT)\r\n"), Ok(None));
    assert_eq!(get_script(b"NO\r\n"), Ok(None));
    assert_eq!(get_script(b"BYE\r\n"), Err(SieveError::Bye { info: info(None, None) }));
}

#[test]
fn logout_answers() {
    let (pending, send) = authenticated().logout();
    assert_eq!(send, "LOGOUT\r\n");
    assert_eq!(pending.finish(Response::new(Tag::Okay)), Ok(()));
    assert_eq!(connected().logout().0.finish(Response::new(Tag::Okay)), Ok(()));
    assert_eq!(
        connected().logout().0.finish(Response::new(Tag::No)),
        Err(SieveError::UnexpectedNo { info: info(None, None) })
    );
    assert_eq!(
        connected().logout().0.finish(Response::new(Tag::Bye)),
        Err(SieveError::Bye { info: info(None, None) })
    );
}

#[test]
fn plain_completes_on_the_first_ok() {
    let mut sasl = plain();
    let (exchange, send) = connected().authenticate(&sasl).unwrap();
    assert_eq!(send, "AUTHENTICATE {5+}\r\nPLAIN {16+}\r\nAHVzZXIAcGFzcw==\r\n");
    let step = exchange.step(&mut sasl, auth_line(b"OK\r\n"));
    let AuthStep::Refresh { completed, send } = step else {
        panic!("the exchange should be complete");
    };
    assert_eq!(send, "CAPABILITY\r\n");
    let bytes = b"\"IMPLEMENTATION\" \"Example\"\r\n\"SIEVE\" \"\"\r\n\"VERSION\" \"1.0\"\r\nOK\r\n";
    let ParseResult::Success((capabilities, response), _) = response_capability(bytes, 0) else {
        panic!("not an announcement");
    };
    match completed.finish::<std::convert::Infallible>(capabilities, response) {
        Ok(Authenticate::Okay { connection }) => {
            assert!(!connection.capabilities().start_tls);
            assert!(connection.capabilities().sasl.is_empty());
        }
        _ => panic!("the client should be authenticated"),
    }
}

#[test]
fn challenge_after_the_mechanism_is_done() {
    let mut sasl = plain();
    let (exchange, _) = connected().authenticate(&sasl).unwrap();
    let step = exchange.step(&mut sasl, auth_line(b"\"aGVsbG8=\"\r\n"));
    match step {
        AuthStep::Refused { connection: Some(_), error } => {
            assert_eq!(error, SaslError::UnexpectedServerResponse)
        }
        _ => panic!("the exchange should be refused"),
    }
    let (exchange, _) = connected().authenticate(&sasl).unwrap();
    let step = exchange.step(&mut sasl, auth_line(b"OK (SASL \"aGVsbG8=\")\r\n"));
    match step {
        AuthStep::Refused { connection: Some(_), error } => {
            assert_eq!(error, SaslError::UnexpectedServerResponse)
        }
        _ => panic!("the exchange should be refused"),
    }
}

#[test]
fn failing_mechanism_gives_the_exchange_up() {
    let mut sasl = Failing;
    let (exchange, send) = connected().authenticate(&sasl).unwrap();
    assert_eq!(send, "AUTHENTICATE {9+}\r\nX-FAILING\r\n");
    let step = exchange.step(&mut sasl, auth_line(b"\"aGVsbG8=\"\r\n"));
    let AuthStep::Abort { aborted, send } = step else {
        panic!("the exchange should be given up");
    };
    assert_eq!(send, "{1+}\r\n*\r\n");
    let ParseResult::Success(response, _) = response_nobye(b"NO \"aborted\"\r\n", 0) else {
        panic!("not a response line");
    };
    match aborted.finish(response) {
        Ok(Authenticate::Error { connection: Some(connection), error }) => {
            assert_eq!(error, SaslError::SaslError("boom".to_string()));
            assert_eq!(connection.capabilities().implementation, "Example");
        }
        _ => panic!("the failure of the mechanism should be reported"),
    }
}

#[test]
fn bye_after_giving_up_ends_the_session() {
    let mut sasl = Failing;
    let (exchange, _) = connected().authenticate(&sasl).unwrap();
    let AuthStep::Abort { aborted, .. } = exchange.step(&mut sasl, auth_line(b"\"\"\r\n")) else {
        panic!("the exchange should be given up");
    };
    match aborted.finish(Response::new(Tag::Bye)) {
        Err(error) => assert_eq!(error, SieveError::Bye { info: info(None, None) }),
        Ok(_) => panic!("the session should be over"),
    }
    let (exchange, _) = connected().authenticate(&sasl).unwrap();
    let AuthStep::Abort { aborted, .. } = exchange.step(&mut sasl, auth_line(b"\"\"\r\n")) else {
        panic!("the exchange should be given up");
    };
    match aborted.finish(Response::new(Tag::Okay)) {
        Err(error) => assert_eq!(error, SieveError::Syntax),
        Ok(_) => panic!("the session should be over"),
    }
}

#[test]
fn exchange_of_several_rounds() {
    let mut sasl = TwoRounds { round: 0 };
    let (exchange, send) = connected().authenticate(&sasl).unwrap();
    assert_eq!(send, "AUTHENTICATE {5+}\r\nX-TWO {8+}\r\nZmlyc3Q=\r\n");
    let AuthStep::Respond { exchange, send } =
        exchange.step(&mut sasl, auth_line(b"\"aGVsbG8=\"\r\n"))
    else {
        panic!("the client should respond");
    };
    assert_eq!(send, "{8+}\r\naGVsbG8=\r\n");
    let AuthStep::Respond { exchange, send } =
        exchange.step(&mut sasl, auth_line(b"{0}\r\n\r\n"))
    else {
        panic!("the client should respond");
    };
    assert_eq!(send, "{8+}\r\nbGFzdA==\r\n");
    let step = exchange.step(&mut sasl, auth_line(b"OK\r\n"));
    assert!(matches!(step, AuthStep::Refresh { .. }));
}

#[test]
fn ok_with_a_last_challenge() {
    let mut sasl = TwoRounds { round: 2 };
    let (exchange, _) = connected().authenticate(&sasl).unwrap();
    let step = exchange.step(&mut sasl, auth_line(b"OK (SASL \"aGVsbG8=\")\r\n"));
    assert!(matches!(step, AuthStep::Refresh { .. }));
    let mut sasl = TwoRounds { round: 0 };
    let (exchange, _) = connected().authenticate(&sasl).unwrap();
    let step = exchange.step(&mut sasl, auth_line(b"OK (SASL \"aGVsbG8=\")\r\n"));
    match step {
        AuthStep::Refused { connection: Some(_), error } => {
            assert_eq!(error, SaslError::UnexpectedOk)
        }
        _ => panic!("the exchange should be refused"),
    }
    let mut sasl = Failing;
    let (exchange, _) = connected().authenticate(&sasl).unwrap();
    let step = exchange.step(&mut sasl, auth_line(b"OK (SASL \"aGVsbG8=\")\r\n"));
    match step {
        AuthStep::Refused { connection: Some(_), error } => {
            assert_eq!(error, SaslError::SaslError("boom".to_string()))
        }
        _ => panic!("the exchange should be refused"),
    }
}

#[test]
fn ok_before_the_mechanism_is_done() {
    let mut sasl = TwoRounds { round: 0 };
    let (exchange, _) = connected().authenticate(&sasl).unwrap();
    match exchange.step(&mut sasl, auth_line(b"OK\r\n")) {
        AuthStep::Refused { connection: None, error } => {
            assert_eq!(error, SaslError::UnexpectedOk)
        }
        _ => panic!("the exchange should be refused without the connection"),
    }
}

#[test]
fn no_within_an_exchange() {
    let cases: [(&[u8], SaslError<String>); 3] = [
        (b"NO (AUTH-TOO-WEAK)\r\n", SaslError::AuthTooWeak),
        (b"NO (ENCRYPT-NEEDED) \"use TLS\"\r\n", SaslError::EncryptNeeded),
        (b"NO (TRANSITION-NEEDED)\r\n", SaslError::TransitionNeeded),
    ];
    for (bytes, expected) in cases {
        let mut sasl = TwoRounds { round: 0 };
        let (exchange, _) = connected().authenticate(&sasl).unwrap();
        match exchange.step(&mut sasl, auth_line(bytes)) {
            AuthStep::Refused { connection: Some(_), error } => assert_eq!(error, expected),
            _ => panic!("the exchange should be refused"),
        }
    }
    let mut sasl = TwoRounds { round: 0 };
    let (exchange, _) = connected().authenticate(&sasl).unwrap();
    match exchange.step(&mut sasl, auth_line(b"NO \"wrong password\"\r\n")) {
        AuthStep::Failed(error) => {
            assert_eq!(error, SieveError::UnexpectedNo { info: info(None, Some("wrong password")) })
        }
        _ => panic!("the session should be over"),
    }
    let (exchange, _) = connected().authenticate(&sasl).unwrap();
    match exchange.step(&mut sasl, auth_line(b"BYE\r\n")) {
        AuthStep::Failed(error) => assert_eq!(error, SieveError::Bye { info: info(None, None) }),
        _ => panic!("the session should be over"),
    }
}

#[test]
fn challenge_that_is_no_base64() {
    let mut sasl = TwoRounds { round: 0 };
    let (exchange, _) = connected().authenticate(&sasl).unwrap();
    match exchange.step(&mut sasl, auth_line(b"\"not base64!\"\r\n")) {
        AuthStep::Failed(error) => assert_eq!(error, SieveError::Syntax),
        _ => panic!("the session should be over"),
    }
    assert_eq!(sasl.round, 0);
}

#[test]
fn reader_takes_chunks_until_the_response_is_whole() {
    let mut buffer = ResponseBuffer::new();
    assert_eq!(buffer.next_response(b"OK (QUO", response_oknobye), None);
    assert_eq!(buffer.next_response(b"TA) \"he", response_oknobye), None);
    assert_eq!(
        buffer.next_response(b"llo\"\r\n", response_oknobye),
        Some(Ok(Response {
            tag: Tag::Okay,
            info: info(Some(ResponseCode::Quota(Quota::Unspecified)), Some("hello")),
        }))
    );
    assert_eq!(buffer.bytes(), b"OK (QUOTA) \"hello\"\r\n");
}

#[test]
fn reader_failures() {
    let mut buffer = ResponseBuffer::new();
    assert_eq!(buffer.next_response(b"OK", response_oknobye), None);
    assert_eq!(
        buffer.next_response(b"", response_oknobye),
        Some(Err(SieveError::Io(IoFailure::UnexpectedEof)))
    );
    assert_eq!(buffer.bytes(), b"OK");
    assert_eq!(buffer.next_response(b"\xff", response_oknobye), Some(Err(SieveError::Syntax)));
    assert_eq!(buffer.bytes(), b"OK\xff");
    let mut buffer = ResponseBuffer::new();
    assert_eq!(buffer.next_response(b"OK", response_oknobye), None);
    assert_eq!(buffer.next_response(b"\r\nOK\r\n", response_oknobye), Some(Err(SieveError::Syntax)));
    let mut buffer = ResponseBuffer::new();
    assert_eq!(buffer.next_response(b"what\r\n", response_oknobye), Some(Err(SieveError::Syntax)));
    assert_eq!(buffer.push(b"more"), Ok(()));
    assert_eq!(buffer.push(b""), Err(SieveError::Io(IoFailure::UnexpectedEof)));
    assert_eq!(buffer.push(b"\xc3"), Ok(()));
    assert_eq!(buffer.bytes(), b"what\r\nmore\xc3");
}

/// Hands `bytes` to a reader in the chunks that the cuts make of them, and
/// says what the reader said after each chunk.
fn read_in_chunks(bytes: &[u8], cuts: &[usize]) -> Vec<Option<Result<Response, SieveError>>> {
    let mut buffer = ResponseBuffer::new();
    let mut said = Vec::new();
    let mut from = 0;
    for &cut in cuts.iter().chain([bytes.len()].iter()) {
        said.push(buffer.next_response(&bytes[from..cut], response_oknobye));
        from = cut;
    }
    said
}

#[test]
fn response_cut_inside_a_character() {
    let bytes = "OK \"caf\u{e9} \u{1f600}\"\r\n".as_bytes();
    let expected = Response { tag: Tag::Okay, info: info(None, Some("caf\u{e9} \u{1f600}")) };
    let mut buffer = ResponseBuffer::new();
    assert_eq!(buffer.next_response(&bytes[..8], response_oknobye), None);
    assert_eq!(buffer.bytes().last(), Some(&0xc3));
    assert_eq!(buffer.next_response(&bytes[8..12], response_oknobye), None);
    assert_eq!(buffer.next_response(&bytes[12..], response_oknobye), Some(Ok(expected)));
}

#[test]
fn response_is_the_same_however_it_is_cut() {
    let bytes = "NO (QUOTA/MAXSIZE) {10}\r\ntr\u{e8}s gros\r\n".as_bytes();
    let expected = Response {
        tag: Tag::No,
        info: info(Some(ResponseCode::Quota(Quota::MaxSize)), Some("tr\u{e8}s gros")),
    };
    assert_eq!(read_in_chunks(bytes, &[]), vec![Some(Ok(expected.clone()))]);
    for first in 1..bytes.len() {
        assert_eq!(read_in_chunks(bytes, &[first]), vec![None, Some(Ok(expected.clone()))]);
        for second in first + 1..bytes.len() {
            assert_eq!(
                read_in_chunks(bytes, &[first, second]),
                vec![None, None, Some(Ok(expected.clone()))]
            );
        }
    }
    let every_byte: Vec<usize> = (1..bytes.len()).collect();
    let said = read_in_chunks(bytes, &every_byte);
    assert_eq!(said.len(), bytes.len());
    assert!(said[..bytes.len() - 1].iter().all(|one| one.is_none()));
    assert_eq!(said[bytes.len() - 1], Some(Ok(expected)));
}

#[test]
fn bytes_after_a_response_are_refused() {
    let mut buffer = ResponseBuffer::new();
    assert_eq!(buffer.next_response(b"OK \"done\"\r", response_oknobye), None);
    assert_eq!(buffer.next_response(b"\n\xc3", response_oknobye), Some(Err(SieveError::Syntax)));
    let mut buffer = ResponseBuffer::new();
    assert_eq!(buffer.next_response(b"OK\r\nO", response_oknobye), Some(Err(SieveError::Syntax)));
    for more in [&b"x"[..], b"\r\n", b"\xff", b"OK\r\n", b" "] {
        let mut buffer = ResponseBuffer::new();
        assert_eq!(buffer.next_response(b"NO (TRYLATER)\r", response_oknobye), None);
        let mut chunk = b"\n".to_vec();
        chunk.extend_from_slice(more);
        assert_eq!(buffer.next_response(&chunk, response_oknobye), Some(Err(SieveError::Syntax)));
    }
}

#[test]
fn bytes_that_are_no_text_are_refused_by_the_grammar() {
    let mut buffer = ResponseBuffer::new();
    assert_eq!(buffer.next_response(b"OK \"a\xffb", response_oknobye), None);
    assert_eq!(buffer.next_response(b"\"\r\n", response_oknobye), Some(Err(SieveError::Syntax)));
    let mut buffer = ResponseBuffer::new();
    assert_eq!(buffer.next_response(b"OK {1}\r\n", response_oknobye), None);
    assert_eq!(buffer.next_response(b"\xc3", response_oknobye), Some(Err(SieveError::Syntax)));
}

#[test]
fn whole_buffer_or_nothing() {
    assert_eq!(complete(response_oknobye(b"OK\r\n", 0), 4), Parsed::Success(Response::new(Tag::Okay)));
    assert_eq!(complete(response_oknobye(b"OK\r\nx", 0), 5), Parsed::SyntaxError);
    assert_eq!(complete(response_oknobye(b"OK\r", 0), 3), Parsed::Incomplete);
    assert_eq!(complete(response_oknobye(b"KO\r\n", 0), 4), Parsed::SyntaxError);
}

#[test]
fn texts_of_responses() {
    assert_eq!(Tag::Okay.to_text(), "OK");
    assert_eq!(Tag::No.to_text(), "NO");
    assert_eq!(Tag::Bye.to_text(), "BYE");
    assert!(Tag::No.is_no());
    assert!(!Tag::Bye.is_no());
    assert_eq!(ResponseCode::Quota(Quota::MaxScripts).to_text(), "QUOTA/MAXSCRIPTS");
    assert_eq!(ResponseCode::Referral("sieve://x".into()).to_text(), "REFERRAL sieve://x");
    assert_eq!(ResponseCode::Sasl("abcd".into()).to_text(), "SASL ...");
    assert_eq!(ResponseCode::Tag("t1".into()).to_text(), "TAG t1");
    let items = vec![
        ExtensionItem::String("a".into()),
        ExtensionItem::Number(12),
        ExtensionItem::ExtensionData(vec![
            ExtensionItem::Number(0),
            ExtensionItem::ExtensionData(vec![]),
        ]),
    ];
    assert_eq!(ExtensionItem::ExtensionData(items.clone()).to_text(), "(a 12 (0 ()))");
    assert_eq!(
        ResponseCode::Extension { name: "X".into(), data: Some(items.clone()) }.to_text(),
        "X a 12 (0 ())"
    );
    assert_eq!(ResponseCode::Extension { name: "X".into(), data: None }.to_text(), "X ");
    assert_eq!(info(Some(ResponseCode::Active), Some("hi")).to_text(), "(ACTIVE) hi");
    assert_eq!(info(Some(ResponseCode::Active), None).to_text(), "(ACTIVE)");
    assert_eq!(info(None, Some("hi")).to_text(), "hi");
    assert_eq!(info(None, None).to_text(), "");
    assert_eq!(ExtensionItem::ExtensionData(items.clone()).clone(), ExtensionItem::ExtensionData(items));
}

#[test]
fn texts_of_errors() {
    assert_eq!(SieveError::Syntax.to_text(), "syntax error");
    assert_eq!(SieveError::Io(IoFailure::UnexpectedEof).to_text(), "encountered I/O error");
    assert_eq!(
        SieveError::Bye { info: info(Some(ResponseCode::TryLater), Some("busy")) }.to_text(),
        "received an unexpected `BYE` response: (TRYLATER) busy"
    );
    assert_eq!(
        SieveError::UnexpectedNo { info: info(None, Some("no")) }.to_text(),
        "received an unexpected `NO` response: no"
    );
    assert_eq!(
        SieveError::CapabilitiesError(CapabilitiesError::MissingVersion).to_text(),
        "capabilities response is missing required capability `VERSION`"
    );
    assert_eq!(fmt_other(&None), "unspecified authentification failure");
    assert_eq!(fmt_other(&Some("why".into())), "unspecified authentification failure: why");
    assert_eq!(
        SaslError::<String>::Other { message: Some("why".into()) }.message(),
        "unspecified authentification failure: why"
    );
    assert_eq!(
        SaslError::<String>::UnexpectedOk.message(),
        "authentication is not completed, but the server sent `OK` response"
    );
}

#[test]
fn states_of_a_mechanism() {
    assert!(SaslState::Yielded(vec![1]).has_response());
    assert!(!SaslState::Yielded(vec![1]).is_finished());
    assert!(!SaslState::Complete.has_response());
    assert!(SaslState::Complete.is_finished());
    assert!(SaslState::CompleteWithFinalResponse(vec![2]).has_response());
    assert!(SaslState::CompleteWithFinalResponse(vec![2]).is_finished());
    assert_eq!(SaslState::Yielded(vec![1]).response(), Some(vec![1]));
    assert_eq!(SaslState::Complete.response(), None);
    assert_eq!(SaslState::CompleteWithFinalResponse(vec![2]).response(), Some(vec![2]));
    let mut sasl = plain();
    assert_eq!(sasl.name(), "PLAIN");
    assert_eq!(sasl.init(), InitialSaslState::Complete(b"\0user\0pass".to_vec()));
    assert_eq!(sasl.resume(vec![]), Ok(SaslState::Complete));
}
