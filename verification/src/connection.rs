//! The connection as the protocol sees it: its phase, the capabilities that
//! were last announced, and what each answer of the server makes of it.
//!
//! A `Connection` holds no transport. An operation takes the connection and
//! hands back the text of its command together with a value that stands for
//! the connection while the answer is awaited; nothing else can be done
//! with the connection until then, so no command overtakes an answer. To
//! finish, that value takes the answer of the server, and either hands the
//! connection back with a result or ends the session with a [`SieveError`],
//! after which the transport is to be closed.

use vstd::prelude::*;
use vstd::string::*;
use core::marker::PhantomData;
use crate::capabilities::{verify_capabilities, validate, Capabilities, CapabilitiesView, Capability, CapabilityView};
use crate::command::{Command, CommandView};
use crate::error::{SieveError, SieveErrorView};
use crate::parser::grammar::GetScriptView;
use crate::parser::lines::GetScriptReply;
use crate::response::{Quota, Response, ResponseCode, ResponseCodeView, ResponseInfo, ResponseView, Tag};
use crate::sieve_name::{SieveNameStr, SieveNameString};
use crate::state::{AuthMode, Authenticated, NoTls, Tls, TlsMode, Unauthenticated};

verus! {

/// A connection in the phase that `TLS` and `AUTH` name.
#[derive(Debug)]
pub struct Connection<TLS: TlsMode, AUTH: AuthMode> {
    capabilities: Capabilities,
    _tls: PhantomData<TLS>,
    _auth: PhantomData<AUTH>,
}

impl<TLS: TlsMode, AUTH: AuthMode> View for Connection<TLS, AUTH> {
    type V = CapabilitiesView;

    /// The capabilities that the server announced last.
    closed spec fn view(&self) -> CapabilitiesView {
        self.capabilities@
    }
}

/// What is left of a response once `BYE` has been dealt with: the response
/// itself, or the end of the session.
pub open spec fn without_bye(response: ResponseView) -> Result<ResponseView, SieveErrorView> {
    if response.tag == Tag::Bye {
        Err(SieveErrorView::Bye { info: response.info })
    } else {
        Ok(response)
    }
}

/// What is left of a response where only `OK` lets the session go on.
pub open spec fn only_ok(response: ResponseView) -> Result<(), SieveErrorView> {
    match response.tag {
        Tag::Bye => Err(SieveErrorView::Bye { info: response.info }),
        Tag::No => Err(SieveErrorView::UnexpectedNo { info: response.info }),
        Tag::Okay => Ok(()),
    }
}

/// Ends the session on `BYE`, and hands any other response back.
pub fn handle_bye(response: Response) -> (result: Result<Response, SieveError>)
    ensures
        match result {
            Ok(same) => without_bye(response@) == Ok::<ResponseView, SieveErrorView>(same@),
            Err(error) => without_bye(response@) == Err::<ResponseView, SieveErrorView>(error@),
        },
{
    match response.tag {
        Tag::Bye => Err(SieveError::Bye { info: response.info }),
        _ => Ok(response),
    }
}

/// Ends the session on `BYE` and on `NO`.
pub fn expect_ok(response: Response) -> (result: Result<(), SieveError>)
    ensures
        match result {
            Ok(_) => only_ok(response@) is Ok,
            Err(error) => only_ok(response@) == Err::<(), SieveErrorView>(error@),
        },
{
    match response.tag {
        Tag::Bye => Err(SieveError::Bye { info: response.info }),
        Tag::No => Err(SieveError::UnexpectedNo { info: response.info }),
        Tag::Okay => Ok(()),
    }
}

/// What a capability announcement and the response line after it make of
/// a session: its new capabilities, or its end.
pub open spec fn announced(caps: Seq<CapabilityView>, response: ResponseView) -> Result<
    CapabilitiesView,
    SieveErrorView,
> {
    match only_ok(response) {
        Err(error) => Err(error),
        Ok(_) => match validate(caps) {
            Ok(record) => Ok(record),
            Err(error) => Err(SieveErrorView::CapabilitiesError(error)),
        },
    }
}

/// Takes in a capability announcement and the response line after it.
pub(crate) fn announce(capabilities: Vec<Capability>, response: Response) -> (result: Result<
    Capabilities,
    SieveError,
>)
    ensures
        match result {
            Ok(record) => announced(capabilities.deep_view(), response@) == Ok::<
                CapabilitiesView,
                SieveErrorView,
            >(record@) && record@.wf(),
            Err(error) => announced(capabilities.deep_view(), response@) == Err::<
                CapabilitiesView,
                SieveErrorView,
            >(error@),
        },
{
    match expect_ok(response) {
        Err(error) => Err(error),
        Ok(_) => match verify_capabilities(capabilities) {
            Ok(record) => Ok(record),
            Err(error) => Err(SieveError::from(error)),
        },
    }
}

impl<TLS: TlsMode, AUTH: AuthMode> Connection<TLS, AUTH> {
    pub(crate) fn with(capabilities: Capabilities) -> (connection: Self)
        ensures
            connection@ == capabilities@,
    {
        Connection { capabilities, _tls: PhantomData, _auth: PhantomData }
    }

    /// The capabilities that the server announced last.
    pub fn capabilities(&self) -> (capabilities: &Capabilities)
        ensures
            capabilities@ == self@,
    {
        &self.capabilities
    }

    /// Ends the session in good order: hands back the command to send.
    pub fn logout(self) -> (sent: (LoggingOut<TLS, AUTH>, String))
        ensures
            sent.0.connection() == self@,
            sent.1@ == CommandView::Logout.wire(),
    {
        (LoggingOut { connection: self }, Command::logout().to_text())
    }
}

/// A connection on which `LOGOUT` has been sent.
#[derive(Debug)]
pub struct LoggingOut<TLS: TlsMode, AUTH: AuthMode> {
    connection: Connection<TLS, AUTH>,
}

impl<TLS: TlsMode, AUTH: AuthMode> LoggingOut<TLS, AUTH> {
    pub closed spec fn connection(self) -> CapabilitiesView {
        self.connection@
    }

    /// The answer to `LOGOUT`. Only `OK` ends the session in good order;
    /// `NO` has no meaning here and ends it as a failure.
    pub fn finish(self, response: Response) -> (result: Result<(), SieveError>)
        ensures
            match result {
                Ok(_) => only_ok(response@) is Ok,
                Err(error) => only_ok(response@) == Err::<(), SieveErrorView>(error@),
            },
    {
        expect_ok(response)
    }
}

/// A connection on which `STARTTLS` has been sent.
#[derive(Debug)]
pub struct StartingTls {
    connection: Connection<NoTls, Unauthenticated>,
}

/// A connection whose transport is being encrypted.
#[derive(Debug)]
pub struct TlsHandshake {
    connection: Connection<NoTls, Unauthenticated>,
}

impl Connection<NoTls, Unauthenticated> {
    /// Opens a session with the greeting of the server: its capability
    /// announcement and the response line after it. `NO` has no meaning
    /// here and ends the session.
    pub fn connect(capabilities: Vec<Capability>, response: Response) -> (result: Result<
        Connection<NoTls, Unauthenticated>,
        SieveError,
    >)
        ensures
            match result {
                Ok(connection) => announced(capabilities.deep_view(), response@) == Ok::<
                    CapabilitiesView,
                    SieveErrorView,
                >(connection@) && connection@.wf(),
                Err(error) => announced(capabilities.deep_view(), response@) == Err::<
                    CapabilitiesView,
                    SieveErrorView,
                >(error@),
            },
    {
        match announce(capabilities, response) {
            Ok(record) => Ok(Connection::with(record)),
            Err(error) => Err(error),
        }
    }

    /// Asks for the transport to be encrypted, which a client does only of
    /// a server that announced `STARTTLS`: hands back the command to send.
    pub fn start_tls(self) -> (sent: (StartingTls, String))
        requires
            self@.start_tls,
        ensures
            sent.0.connection() == self@,
            sent.1@ == CommandView::StartTls.wire(),
    {
        (StartingTls { connection: self }, Command::start_tls().to_text())
    }
}

impl StartingTls {
    pub closed spec fn connection(self) -> CapabilitiesView {
        self.connection@
    }

    /// The answer to `STARTTLS`. On `OK` the transport is to be encrypted
    /// next; `NO` has no meaning here and ends the session.
    pub fn finish(self, response: Response) -> (result: Result<TlsHandshake, SieveError>)
        ensures
            match result {
                Ok(handshake) => only_ok(response@) is Ok && handshake.connection()
                    == self.connection(),
                Err(error) => only_ok(response@) == Err::<(), SieveErrorView>(error@),
            },
    {
        match expect_ok(response) {
            Ok(_) => Ok(TlsHandshake { connection: self.connection }),
            Err(error) => Err(error),
        }
    }
}

impl TlsHandshake {
    /// The capabilities that the server announced before the transport was
    /// encrypted.
    pub closed spec fn connection(self) -> CapabilitiesView {
        self.connection@
    }

    /// What the server announces once the transport is encrypted. The
    /// capabilities of the connection are the new ones; where they do not
    /// hold together the session ends.
    pub fn finish(self, capabilities: Vec<Capability>, response: Response) -> (result: Result<
        Connection<Tls, Unauthenticated>,
        SieveError,
    >)
        ensures
            match result {
                Ok(connection) => announced(capabilities.deep_view(), response@) == Ok::<
                    CapabilitiesView,
                    SieveErrorView,
                >(connection@) && connection@.wf(),
                Err(error) => announced(capabilities.deep_view(), response@) == Err::<
                    CapabilitiesView,
                    SieveErrorView,
                >(error@),
            },
    {
        match announce(capabilities, response) {
            Ok(record) => Ok(Connection::with(record)),
            Err(error) => Err(error),
        }
    }
}

/// What came of `HAVESPACE`.
#[derive(Debug, PartialEq)]
pub enum HaveSpace {
    Okay,
    InsufficientQuota { quota: Quota, message: Option<String> },
}

/// Mathematical value of a [`HaveSpace`].
pub ghost enum HaveSpaceView {
    Okay,
    InsufficientQuota { quota: Quota, message: Option<Seq<char>> },
}

impl View for HaveSpace {
    type V = HaveSpaceView;

    open spec fn view(&self) -> HaveSpaceView {
        match self {
            HaveSpace::Okay => HaveSpaceView::Okay,
            HaveSpace::InsufficientQuota { quota, message } => HaveSpaceView::InsufficientQuota {
                quota: *quota,
                message: message.deep_view(),
            },
        }
    }
}

/// What came of `PUTSCRIPT`.
#[derive(Debug, PartialEq)]
pub enum PutScript {
    Okay { warnings: Option<String> },
    InvalidScript { error: Option<String> },
    InsufficientQuota { quota: Quota, message: Option<String> },
}

/// Mathematical value of a [`PutScript`].
pub ghost enum PutScriptView {
    Okay { warnings: Option<Seq<char>> },
    InvalidScript { error: Option<Seq<char>> },
    InsufficientQuota { quota: Quota, message: Option<Seq<char>> },
}

impl View for PutScript {
    type V = PutScriptView;

    open spec fn view(&self) -> PutScriptView {
        match self {
            PutScript::Okay { warnings } => PutScriptView::Okay { warnings: warnings.deep_view() },
            PutScript::InvalidScript { error } => PutScriptView::InvalidScript {
                error: error.deep_view(),
            },
            PutScript::InsufficientQuota { quota, message } => PutScriptView::InsufficientQuota {
                quota: *quota,
                message: message.deep_view(),
            },
        }
    }
}

/// What came of `CHECKSCRIPT`.
#[derive(Debug, PartialEq)]
pub enum CheckScript {
    Okay { warnings: Option<String> },
    InvalidScript { error: Option<String> },
}

/// Mathematical value of a [`CheckScript`].
pub ghost enum CheckScriptView {
    Okay { warnings: Option<Seq<char>> },
    InvalidScript { error: Option<Seq<char>> },
}

impl View for CheckScript {
    type V = CheckScriptView;

    open spec fn view(&self) -> CheckScriptView {
        match self {
            CheckScript::Okay { warnings } => CheckScriptView::Okay {
                warnings: warnings.deep_view(),
            },
            CheckScript::InvalidScript { error } => CheckScriptView::InvalidScript {
                error: error.deep_view(),
            },
        }
    }
}

/// The quota that a `NO` speaks of: the one its code names, and no
/// particular one where the code is missing or another.
pub open spec fn quota_of(code: Option<ResponseCodeView>) -> Quota {
    match code {
        Some(ResponseCodeView::Quota(quota)) => quota,
        _ => Quota::Unspecified,
    }
}

/// The warnings that an `OK` carries: its text, where its code is
/// `WARNINGS`.
pub open spec fn warnings_of(response: ResponseView) -> Option<Seq<char>> {
    if response.info.code == Some(ResponseCodeView::Warnings) {
        response.info.human
    } else {
        None
    }
}

/// What an answer to `HAVESPACE` means. `NO` is an outcome of its own, with
/// whatever code it carries: the session goes on.
pub open spec fn have_space_outcome(response: ResponseView) -> Result<HaveSpaceView, SieveErrorView> {
    match response.tag {
        Tag::Bye => Err(SieveErrorView::Bye { info: response.info }),
        Tag::Okay => Ok(HaveSpaceView::Okay),
        Tag::No => Ok(
            HaveSpaceView::InsufficientQuota {
                quota: quota_of(response.info.code),
                message: response.info.human,
            },
        ),
    }
}

/// What an answer to `PUTSCRIPT` means. `NO` is an outcome of its own: too
/// little quota where its code says so, an invalid script otherwise.
pub open spec fn put_script_outcome(response: ResponseView) -> Result<PutScriptView, SieveErrorView> {
    match response.tag {
        Tag::Bye => Err(SieveErrorView::Bye { info: response.info }),
        Tag::Okay => Ok(PutScriptView::Okay { warnings: warnings_of(response) }),
        Tag::No => match response.info.code {
            Some(ResponseCodeView::Quota(quota)) => Ok(
                PutScriptView::InsufficientQuota { quota, message: response.info.human },
            ),
            _ => Ok(PutScriptView::InvalidScript { error: response.info.human }),
        },
    }
}

/// What an answer to `CHECKSCRIPT` means. `NO` is an outcome of its own: the
/// script is invalid.
pub open spec fn check_script_outcome(response: ResponseView) -> Result<
    CheckScriptView,
    SieveErrorView,
> {
    match response.tag {
        Tag::Bye => Err(SieveErrorView::Bye { info: response.info }),
        Tag::Okay => Ok(CheckScriptView::Okay { warnings: warnings_of(response) }),
        Tag::No => Ok(CheckScriptView::InvalidScript { error: response.info.human }),
    }
}

/// What an answer to `GETSCRIPT` means. `NO` is an outcome of its own:
/// there is no such script.
pub open spec fn get_script_outcome(reply: GetScriptView) -> Result<Option<Seq<char>>, SieveErrorView> {
    match reply {
        GetScriptView::Script(script, _) => Ok(Some(script)),
        GetScriptView::Refused(response) => match response.tag {
            Tag::Bye => Err(SieveErrorView::Bye { info: response.info }),
            _ => Ok(None),
        },
    }
}

fn warnings(info: ResponseInfo) -> (warnings: Option<String>)
    ensures
        warnings.deep_view() == if info@.code == Some(ResponseCodeView::Warnings) {
            info@.human
        } else {
            None
        },
{
    match info.code {
        Some(ResponseCode::Warnings) => info.human,
        _ => None,
    }
}

impl<TLS: TlsMode> Connection<TLS, Authenticated> {
    /// Asks whether a script of `size` bytes could be stored under `name`:
    /// hands back the command to send.
    pub fn have_space(self, name: SieveNameStr<'_>, size: u64) -> (sent: (
        CheckingSpace<TLS>,
        String,
    ))
        ensures
            sent.0.connection() == self@,
            sent.1@ == CommandView::HaveSpace(name@, size).wire(),
    {
        (CheckingSpace { connection: self }, Command::have_space(name, size).to_text())
    }

    /// Stores `script` under `name`: hands back the command to send.
    pub fn put_scripts(self, name: SieveNameStr<'_>, script: &str) -> (sent: (
        PuttingScript<TLS>,
        String,
    ))
        ensures
            sent.0.connection() == self@,
            sent.1@ == CommandView::PutScript(name@, script@).wire(),
    {
        (PuttingScript { connection: self }, Command::put_script(name, script).to_text())
    }

    /// Has the server check `script`: hands back the command to send.
    pub fn check_script(self, script: &str) -> (sent: (CheckingScript<TLS>, String))
        ensures
            sent.0.connection() == self@,
            sent.1@ == CommandView::CheckScript(script@).wire(),
    {
        (CheckingScript { connection: self }, Command::checkscript(script).to_text())
    }

    /// Asks for the list of scripts: hands back the command to send.
    pub fn list_scripts(self) -> (sent: (ListingScripts<TLS>, String))
        ensures
            sent.0.connection() == self@,
            sent.1@ == CommandView::ListScripts.wire(),
    {
        (ListingScripts { connection: self }, Command::list_scripts().to_text())
    }

    /// Asks for the script called `name`: hands back the command to send.
    pub fn get_script(self, name: SieveNameStr<'_>) -> (sent: (GettingScript<TLS>, String))
        ensures
            sent.0.connection() == self@,
            sent.1@ == CommandView::GetScript(name@).wire(),
    {
        (GettingScript { connection: self }, Command::get_script(name).to_text())
    }
}

/// A connection on which `HAVESPACE` has been sent.
#[derive(Debug)]
pub struct CheckingSpace<TLS: TlsMode> {
    connection: Connection<TLS, Authenticated>,
}

impl<TLS: TlsMode> CheckingSpace<TLS> {
    pub closed spec fn connection(self) -> CapabilitiesView {
        self.connection@
    }

    /// The answer to `HAVESPACE`.
    pub fn finish(self, response: Response) -> (result: Result<
        (Connection<TLS, Authenticated>, HaveSpace),
        SieveError,
    >)
        ensures
            match result {
                Ok((connection, outcome)) => connection@ == self.connection()
                    && have_space_outcome(response@) == Ok::<HaveSpaceView, SieveErrorView>(
                    outcome@,
                ),
                Err(error) => have_space_outcome(response@) == Err::<HaveSpaceView, SieveErrorView>(
                    error@,
                ),
            },
    {
        match response.tag {
            Tag::Bye => Err(SieveError::Bye { info: response.info }),
            Tag::Okay => Ok((self.connection, HaveSpace::Okay)),
            Tag::No => {
                let quota = match response.info.code {
                    Some(ResponseCode::Quota(quota)) => quota,
                    _ => Quota::Unspecified,
                };
                Ok(
                    (
                        self.connection,
                        HaveSpace::InsufficientQuota { quota, message: response.info.human },
                    ),
                )
            },
        }
    }
}

/// A connection on which `PUTSCRIPT` has been sent.
#[derive(Debug)]
pub struct PuttingScript<TLS: TlsMode> {
    connection: Connection<TLS, Authenticated>,
}

impl<TLS: TlsMode> PuttingScript<TLS> {
    pub closed spec fn connection(self) -> CapabilitiesView {
        self.connection@
    }

    /// The answer to `PUTSCRIPT`.
    pub fn finish(self, response: Response) -> (result: Result<
        (Connection<TLS, Authenticated>, PutScript),
        SieveError,
    >)
        ensures
            match result {
                Ok((connection, outcome)) => connection@ == self.connection()
                    && put_script_outcome(response@) == Ok::<PutScriptView, SieveErrorView>(
                    outcome@,
                ),
                Err(error) => put_script_outcome(response@) == Err::<PutScriptView, SieveErrorView>(
                    error@,
                ),
            },
    {
        match response.tag {
            Tag::Bye => Err(SieveError::Bye { info: response.info }),
            Tag::Okay => Ok((self.connection, PutScript::Okay { warnings: warnings(response.info) })),
            Tag::No => match response.info.code {
                Some(ResponseCode::Quota(quota)) => Ok(
                    (
                        self.connection,
                        PutScript::InsufficientQuota { quota, message: response.info.human },
                    ),
                ),
                _ => Ok((self.connection, PutScript::InvalidScript { error: response.info.human })),
            },
        }
    }
}

/// A connection on which `CHECKSCRIPT` has been sent.
#[derive(Debug)]
pub struct CheckingScript<TLS: TlsMode> {
    connection: Connection<TLS, Authenticated>,
}

impl<TLS: TlsMode> CheckingScript<TLS> {
    pub closed spec fn connection(self) -> CapabilitiesView {
        self.connection@
    }

    /// The answer to `CHECKSCRIPT`.
    pub fn finish(self, response: Response) -> (result: Result<
        (Connection<TLS, Authenticated>, CheckScript),
        SieveError,
    >)
        ensures
            match result {
                Ok((connection, outcome)) => connection@ == self.connection()
                    && check_script_outcome(response@) == Ok::<CheckScriptView, SieveErrorView>(
                    outcome@,
                ),
                Err(error) => check_script_outcome(response@) == Err::<
                    CheckScriptView,
                    SieveErrorView,
                >(error@),
            },
    {
        match response.tag {
            Tag::Bye => Err(SieveError::Bye { info: response.info }),
            Tag::Okay => Ok(
                (self.connection, CheckScript::Okay { warnings: warnings(response.info) }),
            ),
            Tag::No => Ok(
                (self.connection, CheckScript::InvalidScript { error: response.info.human }),
            ),
        }
    }
}

/// A connection on which `LISTSCRIPTS` has been sent.
#[derive(Debug)]
pub struct ListingScripts<TLS: TlsMode> {
    connection: Connection<TLS, Authenticated>,
}

impl<TLS: TlsMode> ListingScripts<TLS> {
    pub closed spec fn connection(self) -> CapabilitiesView {
        self.connection@
    }

    /// The answer to `LISTSCRIPTS`: the scripts as the server listed them.
    /// `NO` has no meaning here and ends the session.
    pub fn finish(self, scripts: Vec<(SieveNameString, bool)>, response: Response) -> (result:
        Result<(Connection<TLS, Authenticated>, Vec<(SieveNameString, bool)>), SieveError>)
        ensures
            match result {
                Ok((connection, listed)) => connection@ == self.connection() && listed == scripts
                    && only_ok(response@) is Ok,
                Err(error) => only_ok(response@) == Err::<(), SieveErrorView>(error@),
            },
    {
        match expect_ok(response) {
            Ok(_) => Ok((self.connection, scripts)),
            Err(error) => Err(error),
        }
    }
}

/// A connection on which `GETSCRIPT` has been sent.
#[derive(Debug)]
pub struct GettingScript<TLS: TlsMode> {
    connection: Connection<TLS, Authenticated>,
}

impl<TLS: TlsMode> GettingScript<TLS> {
    pub closed spec fn connection(self) -> CapabilitiesView {
        self.connection@
    }

    /// The answer to `GETSCRIPT`: the script, if there is one.
    pub fn finish(self, reply: GetScriptReply) -> (result: Result<
        (Connection<TLS, Authenticated>, Option<String>),
        SieveError,
    >)
        ensures
            match result {
                Ok((connection, script)) => connection@ == self.connection() && get_script_outcome(
                    reply@,
                ) == Ok::<Option<Seq<char>>, SieveErrorView>(script.deep_view()),
                Err(error) => get_script_outcome(reply@) == Err::<
                    Option<Seq<char>>,
                    SieveErrorView,
                >(error@),
            },
    {
        match reply {
            GetScriptReply::Script(script, _) => Ok((self.connection, Some(script))),
            GetScriptReply::Refused(response) => match response.tag {
                Tag::Bye => Err(SieveError::Bye { info: response.info }),
                _ => Ok((self.connection, None)),
            },
        }
    }
}

} // verus!
