//! The SASL negotiator: what each line of the server makes of an
//! authentication exchange.
//!
//! The exchange is a value that is handed on from step to step. A step takes
//! the line that the server sent and says what to do next: send a line and
//! read on, give the exchange up in an orderly way, ask for the new
//! capabilities, or stop.

use vstd::prelude::*;
use vstd::string::*;
use crate::capabilities::{CapabilitiesView, Capability};
use crate::codec::{base64_data, base64_decode, base64_len};
use crate::command::{Command, CommandView};
use crate::connection::{announce, announced, Connection};
use crate::error::{IoFailure, SieveError, SieveErrorView};
use crate::parser::grammar::AuthLineView;
use crate::parser::lines::AuthLine;
use crate::response::{Response, ResponseCode, ResponseCodeView, ResponseView, Tag};
use crate::sasl::{
    InitialSaslState, InitialSaslStateView, Sasl, SaslError, SaslErrorView, SaslState,
    SaslStateView,
};
use crate::state::{Authenticated, TlsMode, Unauthenticated};

verus! {

/// How an authentication ended.
#[derive(Debug)]
pub enum Authenticate<E, TLS: TlsMode> {
    /// The client is authenticated.
    Okay { connection: Connection<TLS, Authenticated> },
    /// The client is not authenticated. The connection is handed back
    /// where the session can go on.
    Error { connection: Option<Connection<TLS, Unauthenticated>>, error: SaslError<E> },
}

/// An authentication exchange that is under way.
#[derive(Debug)]
pub struct Authentication<TLS: TlsMode> {
    connection: Connection<TLS, Unauthenticated>,
    client_finished: bool,
}

/// An authentication exchange in which the server sent a challenge that the
/// mechanism has yet to answer.
#[derive(Debug)]
pub struct Challenged<TLS: TlsMode> {
    connection: Connection<TLS, Unauthenticated>,
    last: bool,
}

/// An authentication exchange that the client has given up, and of which
/// the server has yet to take note.
#[derive(Debug)]
pub struct AbortedAuthentication<E, TLS: TlsMode> {
    connection: Connection<TLS, Unauthenticated>,
    error: E,
}

/// An authentication exchange that succeeded, after which the server has
/// yet to announce its capabilities anew.
#[derive(Debug)]
pub struct CompletedAuthentication<TLS: TlsMode> {
    connection: Connection<TLS, Unauthenticated>,
}

/// What to do next in an authentication exchange.
#[derive(Debug)]
pub enum AuthStep<E, TLS: TlsMode> {
    /// Send `send`, read the next line, and take the next step with it.
    Respond { exchange: Authentication<TLS>, send: String },
    /// The mechanism failed. Send `send`, read the `NO` or `BYE` that
    /// follows, and finish with it.
    Abort { aborted: AbortedAuthentication<E, TLS>, send: String },
    /// The exchange succeeded. Send `send`, read the capability
    /// announcement, and finish with it.
    Refresh { completed: CompletedAuthentication<TLS>, send: String },
    /// The exchange failed, and nothing more is to be sent or read.
    Refused { connection: Option<Connection<TLS, Unauthenticated>>, error: SaslError<E> },
    /// The session is over.
    Failed(SieveError),
}

/// Mathematical value of an [`AuthStep`]: what is to be sent, what the
/// exchange has come to, and the capabilities of the connection that the
/// step still holds.
pub ghost enum AuthStepView<E> {
    Respond { finished: bool, send: Seq<char> },
    Abort { error: E, send: Seq<char> },
    Refresh { send: Seq<char> },
    Refused { handed_back: bool, error: SaslErrorView<E> },
    Failed(SieveErrorView),
}

impl<TLS: TlsMode> Authentication<TLS> {
    /// The connection on which the exchange runs.
    pub closed spec fn connection(self) -> CapabilitiesView {
        self.connection@
    }

    /// Whether the mechanism has said all it has to say.
    pub closed spec fn finished(self) -> bool {
        self.client_finished
    }
}

impl<TLS: TlsMode> Challenged<TLS> {
    pub closed spec fn connection(self) -> CapabilitiesView {
        self.connection@
    }

    /// Whether the challenge came with the `OK` of the server, so that the
    /// mechanism has nothing more to send after it.
    pub closed spec fn last(self) -> bool {
        self.last
    }
}

impl<E, TLS: TlsMode> AbortedAuthentication<E, TLS> {
    pub closed spec fn connection(self) -> CapabilitiesView {
        self.connection@
    }

    pub closed spec fn error(self) -> E {
        self.error
    }
}

impl<TLS: TlsMode> CompletedAuthentication<TLS> {
    pub closed spec fn connection(self) -> CapabilitiesView {
        self.connection@
    }
}

impl<E, TLS: TlsMode> View for AuthStep<E, TLS> {
    type V = AuthStepView<E>;

    open spec fn view(&self) -> AuthStepView<E> {
        match self {
            AuthStep::Respond { exchange, send } => AuthStepView::Respond {
                finished: exchange.finished(),
                send: send@,
            },
            AuthStep::Abort { aborted, send } => AuthStepView::Abort {
                error: aborted.error(),
                send: send@,
            },
            AuthStep::Refresh { completed, send } => AuthStepView::Refresh { send: send@ },
            AuthStep::Refused { connection, error } => AuthStepView::Refused {
                handed_back: connection is Some,
                error: error@,
            },
            AuthStep::Failed(error) => AuthStepView::Failed(error@),
        }
    }
}

impl<E, TLS: TlsMode> AuthStep<E, TLS> {
    /// The capabilities of the connection that the step holds, if it holds
    /// one.
    pub open spec fn connection(self) -> Option<CapabilitiesView> {
        match self {
            AuthStep::Respond { exchange, send } => Some(exchange.connection()),
            AuthStep::Abort { aborted, send } => Some(aborted.connection()),
            AuthStep::Refresh { completed, send } => Some(completed.connection()),
            AuthStep::Refused { connection, error } => match connection {
                Some(c) => Some(c@),
                None => None,
            },
            AuthStep::Failed(_) => None,
        }
    }

    /// The step holds the connection `before`, unless it holds none.
    pub open spec fn keeps(self, before: CapabilitiesView) -> bool {
        self.connection() matches Some(held) ==> held == before
    }
}

/// What a line of the server asks of the client.
pub ghost enum Ask<E> {
    /// The step is decided.
    Settled(AuthStepView<E>),
    /// The mechanism is to answer `challenge`; `last` says whether the
    /// challenge came with the `OK` of the server.
    Resume { challenge: Seq<u8>, last: bool },
}

/// What the challenge `text` asks: nothing of a mechanism that is done,
/// whose exchange then fails; and an answer of any other, once the text
/// is decoded. A text that is no base64 is a breach of the grammar.
pub open spec fn ask_challenge<E>(finished: bool, text: Seq<char>, last: bool) -> Ask<E> {
    if finished {
        Ask::Settled(
            AuthStepView::Refused {
                handed_back: true,
                error: SaslErrorView::UnexpectedServerResponse,
            },
        )
    } else {
        match base64_data(text) {
            Some(challenge) => Ask::Resume { challenge, last },
            None => Ask::Settled(AuthStepView::Failed(SieveErrorView::Syntax)),
        }
    }
}

/// What a line of the server asks of a client whose mechanism is
/// `finished` or not.
pub open spec fn ask<E>(finished: bool, line: AuthLineView) -> Ask<E> {
    match line {
        AuthLineView::Challenge(text) => ask_challenge(finished, text, false),
        AuthLineView::Reply(response) => match response.tag {
            Tag::Bye => Ask::Settled(
                AuthStepView::Failed(SieveErrorView::Bye { info: response.info }),
            ),
            Tag::Okay => match response.info.code {
                Some(ResponseCodeView::Sasl(text)) => ask_challenge(finished, text, true),
                _ => if finished {
                    Ask::Settled(AuthStepView::Refresh { send: CommandView::Capability.wire() })
                } else {
                    Ask::Settled(
                        AuthStepView::Refused {
                            handed_back: false,
                            error: SaslErrorView::UnexpectedOk,
                        },
                    )
                },
            },
            Tag::No => match response.info.code {
                Some(ResponseCodeView::AuthTooWeak) => Ask::Settled(
                    AuthStepView::Refused { handed_back: true, error: SaslErrorView::AuthTooWeak },
                ),
                Some(ResponseCodeView::EncryptNeeded) => Ask::Settled(
                    AuthStepView::Refused {
                        handed_back: true,
                        error: SaslErrorView::EncryptNeeded,
                    },
                ),
                Some(ResponseCodeView::TransitionNeeded) => Ask::Settled(
                    AuthStepView::Refused {
                        handed_back: true,
                        error: SaslErrorView::TransitionNeeded,
                    },
                ),
                _ => Ask::Settled(
                    AuthStepView::Failed(SieveErrorView::UnexpectedNo { info: response.info }),
                ),
            },
        },
    }
}

/// What the answer of the mechanism to a challenge makes of the exchange.
/// A failure of the mechanism has the client give the exchange up with one
/// line. A challenge that came with `OK` must leave the mechanism with
/// nothing to send; any other is answered with what the mechanism sends,
/// which may be nothing.
pub open spec fn answered<E>(last: bool, outcome: Result<SaslStateView, E>) -> AuthStepView<E> {
    match outcome {
        Err(error) => if last {
            AuthStepView::Refused { handed_back: true, error: SaslErrorView::SaslError(error) }
        } else {
            AuthStepView::Abort { error, send: CommandView::SaslAbort.wire() }
        },
        Ok(state) => if last {
            if state.has_response() {
                AuthStepView::Refused { handed_back: true, error: SaslErrorView::UnexpectedOk }
            } else {
                AuthStepView::Refresh { send: CommandView::Capability.wire() }
            }
        } else {
            let data = match state.response() {
                Some(data) => data,
                None => Seq::empty(),
            };
            if base64_len(data.len()) <= usize::MAX {
                AuthStepView::Respond {
                    finished: state.is_finished(),
                    send: CommandView::SaslResponse(data).wire(),
                }
            } else {
                AuthStepView::Failed(SieveErrorView::Io(IoFailure::InvalidInput))
            }
        },
    }
}

/// `step` is what some answer of the mechanism makes of the exchange.
pub open spec fn follows<E>(step: AuthStepView<E>, last: bool) -> bool {
    exists|outcome: Result<SaslStateView, E>| step == #[trigger] answered(last, outcome)
}

/// The value of what a mechanism handed back.
pub open spec fn outcome_view<E>(outcome: Result<SaslState, E>) -> Result<SaslStateView, E> {
    match outcome {
        Ok(state) => Ok(state@),
        Err(error) => Err(error),
    }
}

/// What a line of the server has come to before the mechanism is asked.
#[derive(Debug)]
pub enum Considered<E, TLS: TlsMode> {
    /// The step is decided.
    Settled(AuthStep<E, TLS>),
    /// The mechanism is to answer `challenge`.
    Resume { challenged: Challenged<TLS>, challenge: Vec<u8> },
}

/// Whether the base64 text of `data` can be addressed.
pub fn encodable(data: &[u8]) -> (yes: bool)
    ensures
        yes == (base64_len(data@.len()) <= usize::MAX),
{
    let len = data.len();
    let groups = if len % 3 == 0 {
        len / 3
    } else {
        len / 3 + 1
    };
    groups <= usize::MAX / 4
}

/// The line by which an authentication starts.
pub open spec fn opening(name: Seq<char>, initial: InitialSaslStateView) -> Seq<char> {
    (CommandView::Authenticate { auth_type: name, message: initial_data(initial) }).wire()
}

/// The bytes that a mechanism sends first, if it sends any.
pub open spec fn initial_data(initial: InitialSaslStateView) -> Option<Seq<u8>> {
    match initial {
        InitialSaslStateView::Absent => None,
        InitialSaslStateView::Yielded(data) => Some(data),
        InitialSaslStateView::Complete(data) => Some(data),
    }
}

impl<TLS: TlsMode> Connection<TLS, Unauthenticated> {
    /// Starts an authentication with the mechanism called `name` and with
    /// what the mechanism sends first. Hands back the exchange and the line
    /// to send; or ends the session where that line cannot be written.
    pub fn begin_authentication(self, name: &str, initial: InitialSaslState) -> (result: Result<
        (Authentication<TLS>, String),
        SieveError,
    >)
        ensures
            match result {
                Ok((exchange, send)) => {
                    &&& exchange.connection() == self@
                    &&& exchange.finished() == (initial is Complete)
                    &&& send@ == opening(name@, initial@)
                    &&& initial_data(initial@) matches Some(data) ==> base64_len(data.len())
                        <= usize::MAX
                },
                Err(error) => {
                    &&& error@ == SieveErrorView::Io(IoFailure::InvalidInput)
                    &&& initial_data(initial@) matches Some(data) && base64_len(data.len())
                        > usize::MAX
                },
            },
    {
        let (data, client_finished) = match initial {
            InitialSaslState::Absent => (None, false),
            InitialSaslState::Yielded(data) => (Some(data), false),
            InitialSaslState::Complete(data) => (Some(data), true),
        };
        let send = match &data {
            Some(data) => {
                if !encodable(data.as_slice()) {
                    return Err(SieveError::Io(IoFailure::InvalidInput));
                }
                Command::authenticate(name, Some(data.as_slice())).to_text()
            },
            None => Command::authenticate(name, None).to_text(),
        };
        Ok((Authentication { connection: self, client_finished }, send))
    }

    /// Starts an authentication with the mechanism `sasl`: asks it for its
    /// name and for what it sends first, and begins with them.
    pub fn authenticate<S: Sasl>(self, sasl: &S) -> (result: Result<
        (Authentication<TLS>, String),
        SieveError,
    >)
        ensures
            match result {
                Ok((exchange, send)) => exchange.connection() == self@ && exists|
                    name: Seq<char>,
                    initial: InitialSaslStateView,
                |
                    send@ == opening(name, initial) && exchange.finished() == (
                    initial is Complete),
                Err(error) => error@ == SieveErrorView::Io(IoFailure::InvalidInput),
            },
    {
        let name = sasl.name();
        let initial = sasl.init();
        let ghost name_view = name@;
        let ghost initial_view = initial@;
        let result = self.begin_authentication(name.as_str(), initial);
        proof {
            if result is Ok {
                let exchange = result->Ok_0.0;
                let send = result->Ok_0.1;
                assert(send@ == opening(name_view, initial_view) && exchange.finished() == (
                initial_view is Complete));
            }
        }
        result
    }
}

impl<TLS: TlsMode> Authentication<TLS> {
    fn refuse<E>(self, error: SaslError<E>) -> (step: Considered<E, TLS>)
        ensures
            step matches Considered::Settled(s) && s@ == (AuthStepView::Refused {
                handed_back: true,
                error: error@,
            }) && s.keeps(self.connection()),
    {
        Considered::Settled(AuthStep::Refused { connection: Some(self.connection), error })
    }

    fn challenged<E>(self, text: &str, last: bool) -> (step: Considered<E, TLS>)
        ensures
            match step {
                Considered::Settled(s) => ask_challenge::<E>(self.finished(), text@, last)
                    == Ask::Settled(s@) && s.keeps(self.connection()),
                Considered::Resume { challenged, challenge } => ask_challenge::<E>(
                    self.finished(),
                    text@,
                    last,
                ) == (Ask::<E>::Resume { challenge: challenge@, last }) && challenged.last() == last
                    && challenged.connection() == self.connection(),
            },
    {
        if self.client_finished {
            self.refuse(SaslError::UnexpectedServerResponse)
        } else {
            match base64_decode(text) {
                Ok(challenge) => Considered::Resume {
                    challenged: Challenged { connection: self.connection, last },
                    challenge,
                },
                Err(_) => Considered::Settled(AuthStep::Failed(SieveError::Syntax)),
            }
        }
    }

    /// Takes a line of the server as far as it goes without the mechanism.
    pub fn consider<E>(self, line: AuthLine) -> (step: Considered<E, TLS>)
        ensures
            match step {
                Considered::Settled(s) => ask::<E>(self.finished(), line@) == Ask::Settled(s@)
                    && s.keeps(self.connection()),
                Considered::Resume { challenged, challenge } => ask::<E>(self.finished(), line@)
                    == (Ask::<E>::Resume { challenge: challenge@, last: challenged.last() })
                    && challenged.connection() == self.connection(),
            },
    {
        match line {
            AuthLine::Challenge(text) => self.challenged(text.as_str(), false),
            AuthLine::Reply(response) => match response.tag {
                Tag::Bye => Considered::Settled(
                    AuthStep::Failed(SieveError::Bye { info: response.info }),
                ),
                Tag::Okay => match response.info.code {
                    Some(ResponseCode::Sasl(text)) => self.challenged(text.as_str(), true),
                    _ => if self.client_finished {
                        Considered::Settled(
                            AuthStep::Refresh {
                                completed: CompletedAuthentication { connection: self.connection },
                                send: Command::capability().to_text(),
                            },
                        )
                    } else {
                        Considered::Settled(
                            AuthStep::Refused { connection: None, error: SaslError::UnexpectedOk },
                        )
                    },
                },
                Tag::No => match response.info.code {
                    Some(ResponseCode::AuthTooWeak) => self.refuse(SaslError::AuthTooWeak),
                    Some(ResponseCode::EncryptNeeded) => self.refuse(SaslError::EncryptNeeded),
                    Some(ResponseCode::TransitionNeeded) => self.refuse(
                        SaslError::TransitionNeeded,
                    ),
                    _ => Considered::Settled(
                        AuthStep::Failed(SieveError::UnexpectedNo { info: response.info }),
                    ),
                },
            },
        }
    }

    /// Takes the next step of the exchange with a line of the server,
    /// asking the mechanism `sasl` where the line holds a challenge.
    pub fn step<S: Sasl>(self, sasl: &mut S, line: AuthLine) -> (step: AuthStep<S::Error, TLS>)
        ensures
            step.keeps(self.connection()),
            match ask::<S::Error>(self.finished(), line@) {
                Ask::Settled(settled) => step@ == settled,
                Ask::Resume { challenge, last } => follows(step@, last),
            },
    {
        match self.consider(line) {
            Considered::Settled(step) => step,
            Considered::Resume { challenged, challenge } => {
                let outcome = sasl.resume(challenge);
                let ghost witness = outcome_view(outcome);
                let step = challenged.answer(outcome);
                assert(step@ == answered(challenged.last(), witness));
                step
            },
        }
    }
}

impl<TLS: TlsMode> Challenged<TLS> {
    /// Takes the step that the answer of the mechanism calls for.
    pub fn answer<E>(self, outcome: Result<SaslState, E>) -> (step: AuthStep<E, TLS>)
        ensures
            step@ == answered(self.last(), outcome_view(outcome)),
            step.keeps(self.connection()),
    {
        match outcome {
            Err(error) => if self.last {
                AuthStep::Refused {
                    connection: Some(self.connection),
                    error: SaslError::SaslError(error),
                }
            } else {
                AuthStep::Abort {
                    aborted: AbortedAuthentication { connection: self.connection, error },
                    send: Command::sasl_abort().to_text(),
                }
            },
            Ok(state) => if self.last {
                if state.has_response() {
                    AuthStep::Refused {
                        connection: Some(self.connection),
                        error: SaslError::UnexpectedOk,
                    }
                } else {
                    AuthStep::Refresh {
                        completed: CompletedAuthentication { connection: self.connection },
                        send: Command::capability().to_text(),
                    }
                }
            } else {
                let client_finished = state.is_finished();
                let data = match state.response() {
                    Some(data) => data,
                    None => Vec::new(),
                };
                if encodable(data.as_slice()) {
                    AuthStep::Respond {
                        exchange: Authentication { connection: self.connection, client_finished },
                        send: Command::sasl_response(data.as_slice()).to_text(),
                    }
                } else {
                    AuthStep::Failed(SieveError::Io(IoFailure::InvalidInput))
                }
            },
        }
    }
}

/// What the answer to the line that gave an exchange up makes of it: on
/// `NO` the failure of the mechanism, with the connection handed back; on
/// `BYE` the end of the session. `OK` is no answer to that line.
pub open spec fn aborted<E>(error: E, response: ResponseView) -> Result<
    SaslErrorView<E>,
    SieveErrorView,
> {
    match response.tag {
        Tag::Bye => Err(SieveErrorView::Bye { info: response.info }),
        Tag::No => Ok(SaslErrorView::SaslError(error)),
        Tag::Okay => Err(SieveErrorView::Syntax),
    }
}

impl<E, TLS: TlsMode> AbortedAuthentication<E, TLS> {
    /// Finishes with the answer of the server to the line that gave the
    /// exchange up.
    pub fn finish(self, response: Response) -> (result: Result<Authenticate<E, TLS>, SieveError>)
        ensures
            match result {
                Ok(Authenticate::Error { connection: Some(connection), error }) => aborted(
                    self.error(),
                    response@,
                ) == Ok::<SaslErrorView<E>, SieveErrorView>(error@) && connection@
                    == self.connection(),
                Ok(_) => false,
                Err(error) => aborted(self.error(), response@) == Err::<
                    SaslErrorView<E>,
                    SieveErrorView,
                >(error@),
            },
    {
        match response.tag {
            Tag::Bye => Err(SieveError::Bye { info: response.info }),
            Tag::No => Ok(
                Authenticate::Error {
                    connection: Some(self.connection),
                    error: SaslError::SaslError(self.error),
                },
            ),
            Tag::Okay => Err(SieveError::Syntax),
        }
    }
}

impl<TLS: TlsMode> CompletedAuthentication<TLS> {
    /// Finishes with what the server announces after the exchange. The
    /// capabilities of the authenticated connection are the new ones;
    /// where they do not hold together the session ends.
    pub fn finish<E>(self, capabilities: Vec<Capability>, response: Response) -> (result: Result<
        Authenticate<E, TLS>,
        SieveError,
    >)
        ensures
            match result {
                Ok(Authenticate::Okay { connection }) => announced(
                    capabilities.deep_view(),
                    response@,
                ) == Ok::<CapabilitiesView, SieveErrorView>(connection@) && connection@.wf(),
                Ok(_) => false,
                Err(error) => announced(capabilities.deep_view(), response@) == Err::<
                    CapabilitiesView,
                    SieveErrorView,
                >(error@),
            },
    {
        match announce(capabilities, response) {
            Ok(record) => Ok(Authenticate::Okay { connection: Connection::with(record) }),
            Err(error) => Err(error),
        }
    }
}

/// A mechanism that has said all it has to say at the start needs one
/// answer only: the first `OK` without data ends the exchange, and what
/// the client sends next is the request for the new capabilities.
pub proof fn law_finished_mechanism_completes_on_ok<E>(response: ResponseView)
    requires
        response.tag == Tag::Okay,
        !(response.info.code matches Some(ResponseCodeView::Sasl(_))),
    ensures
        ask::<E>(true, AuthLineView::Reply(response)) == Ask::<E>::Settled(
            AuthStepView::Refresh { send: "CAPABILITY\r\n"@ },
        ),
{
}

/// A mechanism that fails on a challenge has the client send exactly the
/// line that gives the exchange up, and nothing else; the failure is
/// reported with the connection once the server has answered `NO`, and
/// the session is over where the server answers `BYE`.
pub proof fn law_failed_mechanism_gives_up<E>(
    text: Seq<char>,
    challenge: Seq<u8>,
    error: E,
    response: ResponseView,
)
    requires
        base64_data(text) == Some(challenge),
    ensures
        ask::<E>(false, AuthLineView::Challenge(text)) == (Ask::<E>::Resume {
            challenge,
            last: false,
        }),
        answered::<E>(false, Err(error)) == (AuthStepView::Abort {
            error,
            send: "{"@ + "1"@ + "+}\r\n"@ + "*"@ + "\r\n"@,
        }),
        response.tag == Tag::No ==> aborted(error, response) == Ok::<
            SaslErrorView<E>,
            SieveErrorView,
        >(SaslErrorView::SaslError(error)),
        response.tag == Tag::Bye ==> aborted(error, response) == Err::<
            SaslErrorView<E>,
            SieveErrorView,
        >(SieveErrorView::Bye { info: response.info }),
{
    reveal_strlit("*");
    reveal_strlit("1");
    let star = "*"@;
    assert(vstd::utf8::is_ascii_chars(star));
    vstd::utf8::is_ascii_chars_encode_utf8(star);
    assert(crate::codec::decimal(1) =~= "1"@);
}

} // verus!
