//! SASL mechanisms as seen from the negotiator: a name, an optional initial
//! response, and a step that answers one server challenge at a time.

use vstd::prelude::*;
use vstd::string::*;

verus! {

/// Why an authentication exchange ended without success.
#[derive(Debug, PartialEq)]
pub enum SaslError<E> {
    /// The server said `OK` before the mechanism was done.
    UnexpectedOk,
    /// The server went on after the mechanism was done.
    UnexpectedServerResponse,
    /// The mechanism itself failed.
    SaslError(E),
    AuthTooWeak,
    EncryptNeeded,
    TransitionNeeded,
    Other { message: Option<String> },
}

/// Mathematical value of a [`SaslError`].
pub ghost enum SaslErrorView<E> {
    UnexpectedOk,
    UnexpectedServerResponse,
    SaslError(E),
    AuthTooWeak,
    EncryptNeeded,
    TransitionNeeded,
    Other { message: Option<Seq<char>> },
}

impl<E> View for SaslError<E> {
    type V = SaslErrorView<E>;

    open spec fn view(&self) -> SaslErrorView<E> {
        match self {
            SaslError::UnexpectedOk => SaslErrorView::UnexpectedOk,
            SaslError::UnexpectedServerResponse => SaslErrorView::UnexpectedServerResponse,
            SaslError::SaslError(e) => SaslErrorView::SaslError(*e),
            SaslError::AuthTooWeak => SaslErrorView::AuthTooWeak,
            SaslError::EncryptNeeded => SaslErrorView::EncryptNeeded,
            SaslError::TransitionNeeded => SaslErrorView::TransitionNeeded,
            SaslError::Other { message } => SaslErrorView::Other { message: message.deep_view() },
        }
    }
}

/// Text of an authentication failure for which the server gave no reason
/// that this library knows.
pub open spec fn other_text(message: Option<Seq<char>>) -> Seq<char> {
    match message {
        Some(m) => "unspecified authentification failure"@ + ": "@ + m,
        None => "unspecified authentification failure"@,
    }
}

pub fn fmt_other(message: &Option<String>) -> (text: String)
    ensures
        text@ == other_text(message.deep_view()),
{
    let mut text = "unspecified authentification failure".to_owned();
    if let Some(msg) = message {
        text.append(": ");
        text.append(msg.as_str());
    }
    text
}

impl<E> SaslError<E> {
    /// What the error says, apart from what a failed mechanism reports itself.
    pub open spec fn text(self) -> Seq<char> {
        match self {
            SaslError::UnexpectedOk => "authentication is not completed, but the server sent `OK` response"@,
            SaslError::UnexpectedServerResponse => "authentication is completed, but the server sent further messages"@,
            SaslError::SaslError(_) => "internal error in the provided SASL algorithm"@,
            SaslError::AuthTooWeak => "site security policy forbids the use of the requested mechanism for the specified authentication identity"@,
            SaslError::EncryptNeeded => "site security policy requires the use of a strong encryption mechanism for the specified authentication identity and mechanism"@,
            SaslError::TransitionNeeded => "the username is valid, but the entry in the authentication database needs to be updated in order to permit authentication with the specified mechanism"@,
            SaslError::Other { message } => other_text(message.deep_view()),
        }
    }

    pub fn message(&self) -> (text: String)
        ensures
            text@ == self.text(),
    {
        match self {
            SaslError::UnexpectedOk => "authentication is not completed, but the server sent `OK` response".to_owned(),
            SaslError::UnexpectedServerResponse => "authentication is completed, but the server sent further messages".to_owned(),
            SaslError::SaslError(_) => "internal error in the provided SASL algorithm".to_owned(),
            SaslError::AuthTooWeak => "site security policy forbids the use of the requested mechanism for the specified authentication identity".to_owned(),
            SaslError::EncryptNeeded => "site security policy requires the use of a strong encryption mechanism for the specified authentication identity and mechanism".to_owned(),
            SaslError::TransitionNeeded => "the username is valid, but the entry in the authentication database needs to be updated in order to permit authentication with the specified mechanism".to_owned(),
            SaslError::Other { message } => fmt_other(message),
        }
    }
}

/// What a mechanism hands back after a server challenge.
#[derive(Debug, PartialEq)]
pub enum SaslState {
    /// A response, with more to come.
    Yielded(Vec<u8>),
    /// Done, with nothing more to send.
    Complete,
    /// Done, with one last response to send.
    CompleteWithFinalResponse(Vec<u8>),
}

/// Mathematical value of a [`SaslState`].
pub ghost enum SaslStateView {
    Yielded(Seq<u8>),
    Complete,
    CompleteWithFinalResponse(Seq<u8>),
}

impl View for SaslState {
    type V = SaslStateView;

    open spec fn view(&self) -> SaslStateView {
        match self {
            SaslState::Yielded(r) => SaslStateView::Yielded(r@),
            SaslState::Complete => SaslStateView::Complete,
            SaslState::CompleteWithFinalResponse(r) => SaslStateView::CompleteWithFinalResponse(r@),
        }
    }
}

impl SaslStateView {
    pub open spec fn has_response(self) -> bool {
        self is Yielded || self is CompleteWithFinalResponse
    }

    pub open spec fn is_finished(self) -> bool {
        self is Complete || self is CompleteWithFinalResponse
    }

    pub open spec fn response(self) -> Option<Seq<u8>> {
        match self {
            SaslStateView::Yielded(r) => Some(r),
            SaslStateView::Complete => None,
            SaslStateView::CompleteWithFinalResponse(r) => Some(r),
        }
    }
}

impl SaslState {
    pub fn has_response(&self) -> (yes: bool)
        ensures
            yes == self@.has_response(),
    {
        match self {
            SaslState::Yielded(_) => true,
            SaslState::Complete => false,
            SaslState::CompleteWithFinalResponse(_) => true,
        }
    }

    pub fn is_finished(&self) -> (yes: bool)
        ensures
            yes == self@.is_finished(),
    {
        match self {
            SaslState::Yielded(_) => false,
            SaslState::Complete => true,
            SaslState::CompleteWithFinalResponse(_) => true,
        }
    }

    pub fn response(self) -> (response: Option<Vec<u8>>)
        ensures
            match response {
                Some(data) => self@.response() == Some(data@),
                None => self@.response() is None,
            },
    {
        match self {
            SaslState::Yielded(r) => Some(r),
            SaslState::Complete => None,
            SaslState::CompleteWithFinalResponse(r) => Some(r),
        }
    }
}

/// What a mechanism has to say before the server has said anything.
#[derive(Debug, PartialEq, Clone)]
pub enum InitialSaslState {
    /// Nothing: the server speaks first.
    Absent,
    /// An initial response, with more to come.
    Yielded(Vec<u8>),
    /// An initial response that is all the mechanism will ever send.
    Complete(Vec<u8>),
}

/// Mathematical value of an [`InitialSaslState`].
pub ghost enum InitialSaslStateView {
    Absent,
    Yielded(Seq<u8>),
    Complete(Seq<u8>),
}

impl View for InitialSaslState {
    type V = InitialSaslStateView;

    open spec fn view(&self) -> InitialSaslStateView {
        match self {
            InitialSaslState::Absent => InitialSaslStateView::Absent,
            InitialSaslState::Yielded(r) => InitialSaslStateView::Yielded(r@),
            InitialSaslState::Complete(r) => InitialSaslStateView::Complete(r@),
        }
    }
}

/// A SASL mechanism. Nothing is asked of an implementation: the negotiator
/// is verified for whatever these methods return.
pub trait Sasl {
    type Error;

    /// The name under which the mechanism is registered.
    fn name(&self) -> String;

    /// What the client sends along with the `AUTHENTICATE` command.
    fn init(&self) -> InitialSaslState;

    /// Answers one server challenge.
    fn resume(&mut self, challenge: Vec<u8>) -> Result<SaslState, Self::Error>;
}

/// A mechanism that says all it has to say in its initial response, such as
/// `PLAIN`.
#[derive(Debug, PartialEq, Clone)]
pub struct OneShot {
    pub name: String,
    pub initial: Vec<u8>,
}

impl Sasl for OneShot {
    type Error = core::convert::Infallible;

    fn name(&self) -> (name: String)
        ensures
            name@ == self.name@,
    {
        self.name.clone()
    }

    fn init(&self) -> (state: InitialSaslState)
        ensures
            state@ == InitialSaslStateView::Complete(self.initial@),
    {
        InitialSaslState::Complete(self.initial.clone())
    }

    /// The negotiator never asks: the mechanism was complete from the start.
    fn resume(&mut self, challenge: Vec<u8>) -> (state: Result<SaslState, Self::Error>)
        ensures
            state == Ok::<SaslState, Self::Error>(SaslState::Complete),
    {
        Ok(SaslState::Complete)
    }
}

} // verus!
