//! What can end a session.

use vstd::prelude::*;
use vstd::std_specs::convert::FromSpecImpl;
use vstd::string::*;
use crate::capabilities::{CapabilitiesError, CapabilitiesErrorView};
use crate::response::{ResponseInfo, ResponseInfoView};

verus! {

/// The ways in which the transport can fail that the engine itself finds.
#[derive(Debug, PartialEq, Eq, Clone, Copy, Structural)]
pub enum IoFailure {
    /// The server closed the transport in the middle of a response.
    UnexpectedEof,
    /// The client has something to send that cannot be put on the wire.
    InvalidInput,
}

/// A failure after which the connection is of no more use.
#[derive(Debug, PartialEq)]
pub enum SieveError {
    /// The transport failed.
    Io(IoFailure),
    /// The server sent what the grammar does not allow.
    Syntax,
    /// The server announced capabilities that do not hold together.
    CapabilitiesError(CapabilitiesError),
    /// The server said `BYE`.
    Bye { info: ResponseInfo },
    /// The server said `NO` where the operation has no use for it.
    UnexpectedNo { info: ResponseInfo },
}

/// Mathematical value of a [`SieveError`].
pub ghost enum SieveErrorView {
    Io(IoFailure),
    Syntax,
    CapabilitiesError(CapabilitiesErrorView),
    Bye { info: ResponseInfoView },
    UnexpectedNo { info: ResponseInfoView },
}

impl View for SieveError {
    type V = SieveErrorView;

    open spec fn view(&self) -> SieveErrorView {
        match self {
            SieveError::Io(failure) => SieveErrorView::Io(*failure),
            SieveError::Syntax => SieveErrorView::Syntax,
            SieveError::CapabilitiesError(error) => SieveErrorView::CapabilitiesError(error@),
            SieveError::Bye { info } => SieveErrorView::Bye { info: info@ },
            SieveError::UnexpectedNo { info } => SieveErrorView::UnexpectedNo { info: info@ },
        }
    }
}

impl SieveErrorView {
    /// What the error says.
    pub open spec fn text(self) -> Seq<char> {
        match self {
            SieveErrorView::Io(_) => "encountered I/O error"@,
            SieveErrorView::Syntax => "syntax error"@,
            SieveErrorView::CapabilitiesError(error) => error.text(),
            SieveErrorView::Bye { info } => "received an unexpected `BYE` response: "@ + info.text(),
            SieveErrorView::UnexpectedNo { info } => "received an unexpected `NO` response: "@
                + info.text(),
        }
    }
}

impl SieveError {
    /// Writes the error out.
    pub fn to_text(&self) -> (text: String)
        ensures
            text@ == self@.text(),
    {
        match self {
            SieveError::Io(_) => "encountered I/O error".to_owned(),
            SieveError::Syntax => "syntax error".to_owned(),
            SieveError::CapabilitiesError(error) => error.to_text(),
            SieveError::Bye { info } => {
                let mut text = "received an unexpected `BYE` response: ".to_owned();
                let info = info.to_text();
                text.append(info.as_str());
                text
            },
            SieveError::UnexpectedNo { info } => {
                let mut text = "received an unexpected `NO` response: ".to_owned();
                let info = info.to_text();
                text.append(info.as_str());
                text
            },
        }
    }
}

impl From<CapabilitiesError> for SieveError {
    fn from(error: CapabilitiesError) -> (wrapped: SieveError) {
        SieveError::CapabilitiesError(error)
    }
}

impl FromSpecImpl<CapabilitiesError> for SieveError {
    open spec fn obeys_from_spec() -> bool {
        true
    }

    open spec fn from_spec(error: CapabilitiesError) -> SieveError {
        SieveError::CapabilitiesError(error)
    }
}

impl DeepView for SieveError {
    type V = SieveErrorView;

    open spec fn deep_view(&self) -> SieveErrorView {
        self@
    }
}

} // verus!
