//! The commands of a client, and the text that puts each on the wire.

use vstd::prelude::*;
use vstd::string::*;
use vstd::utf8::*;
use crate::codec::{base64_encode, base64_len, base64_text, decimal, decimal_text};
use crate::sieve_name::SieveNameStr;

verus! {

/// A string that goes on the wire as a literal.
#[derive(Debug, PartialEq, Eq, Clone, Copy)]
pub struct SieveStr<'a>(pub &'a str);

/// Bytes that go on the wire as the literal of their base64 text.
#[derive(Debug, PartialEq, Eq, Clone, Copy)]
pub struct SieveStrBase64<'a>(pub &'a [u8]);

/// The literal that carries `s` from client to server: its length in bytes
/// between `{` and `+}`, a line break, then `s` itself.
pub open spec fn literal(s: Seq<char>) -> Seq<char> {
    "{"@ + decimal(encode_utf8(s).len()) + "+}\r\n"@ + s
}

impl<'a> SieveStr<'a> {
    pub open spec fn wire(self) -> Seq<char> {
        literal(self.0@)
    }

    pub fn to_text(&self) -> (text: String)
        ensures
            text@ == self.wire(),
    {
        let mut text = "{".to_owned();
        let digits = decimal_text(self.0.as_bytes().len() as u64);
        text.append(digits.as_str());
        text.append("+}\r\n");
        text.append(self.0);
        text
    }
}

impl<'a> SieveStrBase64<'a> {
    pub open spec fn wire(self) -> Seq<char> {
        literal(base64_text(self.0@))
    }

    /// The bytes are short enough for their base64 text to be addressed.
    pub open spec fn encodable(self) -> bool {
        base64_len(self.0@.len()) <= usize::MAX
    }

    pub fn to_text(&self) -> (text: String)
        requires
            self.encodable(),
        ensures
            text@ == self.wire(),
    {
        let encoded = base64_encode(self.0);
        SieveStr(encoded.as_str()).to_text()
    }
}

/// A command of the protocol, with what it carries.
#[derive(Debug, PartialEq, Eq, Clone, Copy)]
pub enum Command<'a> {
    Authenticate { auth_type: SieveStr<'a>, message: Option<SieveStrBase64<'a>> },
    /// One client response within an authentication exchange.
    SaslResponse(SieveStrBase64<'a>),
    /// The line by which a client gives up an authentication exchange.
    SaslAbort,
    StartTls,
    Logout,
    Capability,
    HaveSpace(SieveStr<'a>, u64),
    PutScript(SieveStr<'a>, SieveStr<'a>),
    ListScripts,
    SetActive(SieveStr<'a>),
    GetScript(SieveStr<'a>),
    DeleteScript(SieveStr<'a>),
    RenameScript(SieveStr<'a>, SieveStr<'a>),
    CheckScript(SieveStr<'a>),
    Noop,
    UnAuthenticate,
}

/// Mathematical value of a [`Command`].
pub ghost enum CommandView {
    Authenticate { auth_type: Seq<char>, message: Option<Seq<u8>> },
    SaslResponse(Seq<u8>),
    SaslAbort,
    StartTls,
    Logout,
    Capability,
    HaveSpace(Seq<char>, u64),
    PutScript(Seq<char>, Seq<char>),
    ListScripts,
    SetActive(Seq<char>),
    GetScript(Seq<char>),
    DeleteScript(Seq<char>),
    RenameScript(Seq<char>, Seq<char>),
    CheckScript(Seq<char>),
    Noop,
    UnAuthenticate,
}

impl<'a> View for Command<'a> {
    type V = CommandView;

    open spec fn view(&self) -> CommandView {
        match self {
            Command::Authenticate { auth_type, message } => CommandView::Authenticate {
                auth_type: auth_type.0@,
                message: match message {
                    Some(m) => Some(m.0@),
                    None => None,
                },
            },
            Command::SaslResponse(response) => CommandView::SaslResponse(response.0@),
            Command::SaslAbort => CommandView::SaslAbort,
            Command::StartTls => CommandView::StartTls,
            Command::Logout => CommandView::Logout,
            Command::Capability => CommandView::Capability,
            Command::HaveSpace(name, size) => CommandView::HaveSpace(name.0@, *size),
            Command::PutScript(name, script) => CommandView::PutScript(name.0@, script.0@),
            Command::ListScripts => CommandView::ListScripts,
            Command::SetActive(name) => CommandView::SetActive(name.0@),
            Command::GetScript(name) => CommandView::GetScript(name.0@),
            Command::DeleteScript(name) => CommandView::DeleteScript(name.0@),
            Command::RenameScript(old_name, new_name) => CommandView::RenameScript(
                old_name.0@,
                new_name.0@,
            ),
            Command::CheckScript(script) => CommandView::CheckScript(script.0@),
            Command::Noop => CommandView::Noop,
            Command::UnAuthenticate => CommandView::UnAuthenticate,
        }
    }
}

impl CommandView {
    /// The text of the command as it goes on the wire, line break included.
    pub open spec fn wire(self) -> Seq<char> {
        match self {
            CommandView::Authenticate { auth_type, message } => "AUTHENTICATE "@ + literal(
                auth_type,
            ) + (match message {
                Some(m) => " "@ + literal(base64_text(m)),
                None => Seq::empty(),
            }) + "\r\n"@,
            CommandView::SaslResponse(response) => literal(base64_text(response)) + "\r\n"@,
            CommandView::SaslAbort => literal("*"@) + "\r\n"@,
            CommandView::StartTls => "STARTTLS\r\n"@,
            CommandView::Logout => "LOGOUT\r\n"@,
            CommandView::Capability => "CAPABILITY\r\n"@,
            CommandView::HaveSpace(name, size) => "HAVESPACE "@ + literal(name) + " "@ + decimal(
                size as nat,
            ) + "\r\n"@,
            CommandView::PutScript(name, script) => "PUTSCRIPT "@ + literal(name) + " "@ + literal(
                script,
            ) + "\r\n"@,
            CommandView::ListScripts => "LISTSCRIPTS\r\n"@,
            CommandView::SetActive(name) => "SETACTIVE "@ + literal(name) + "\r\n"@,
            CommandView::GetScript(name) => "GETSCRIPT "@ + literal(name) + "\r\n"@,
            CommandView::DeleteScript(name) => "DELETESCRIPT "@ + literal(name) + "\r\n"@,
            CommandView::RenameScript(old_name, new_name) => "RENAMESCRIPT "@ + literal(old_name)
                + " "@ + literal(new_name) + "\r\n"@,
            CommandView::CheckScript(script) => "CHECKSCRIPT "@ + literal(script) + "\r\n"@,
            CommandView::Noop => "NOOP\r\n"@,
            CommandView::UnAuthenticate => "UNAUTHENTICATE\r\n"@,
        }
    }

    /// Whatever the command carries as bytes is short enough for its base64
    /// text to be addressed.
    pub open spec fn encodable(self) -> bool {
        match self {
            CommandView::Authenticate { auth_type, message } => message matches Some(m)
                ==> base64_len(m.len()) <= usize::MAX,
            CommandView::SaslResponse(response) => base64_len(response.len()) <= usize::MAX,
            _ => true,
        }
    }
}

impl<'a> Command<'a> {
    pub fn authenticate(auth_type: &'a str, message: Option<&'a [u8]>) -> (command: Command<'a>)
        ensures
            command@ == (CommandView::Authenticate {
                auth_type: auth_type@,
                message: match message {
                    Some(m) => Some(m@),
                    None => None,
                },
            }),
    {
        Command::Authenticate {
            auth_type: SieveStr(auth_type),
            message: match message {
                Some(m) => Some(SieveStrBase64(m)),
                None => None,
            },
        }
    }

    pub fn sasl_response(response: &'a [u8]) -> (command: Command<'a>)
        ensures
            command@ == CommandView::SaslResponse(response@),
    {
        Command::SaslResponse(SieveStrBase64(response))
    }

    pub fn sasl_abort() -> (command: Command<'a>)
        ensures
            command@ == CommandView::SaslAbort,
    {
        Command::SaslAbort
    }

    pub fn start_tls() -> (command: Command<'a>)
        ensures
            command@ == CommandView::StartTls,
    {
        Command::StartTls
    }

    pub fn logout() -> (command: Command<'a>)
        ensures
            command@ == CommandView::Logout,
    {
        Command::Logout
    }

    pub fn capability() -> (command: Command<'a>)
        ensures
            command@ == CommandView::Capability,
    {
        Command::Capability
    }

    pub fn have_space(name: SieveNameStr<'a>, size: u64) -> (command: Command<'a>)
        ensures
            command@ == CommandView::HaveSpace(name@, size),
    {
        Command::HaveSpace(SieveStr(name.as_str()), size)
    }

    pub fn put_script(name: SieveNameStr<'a>, script: &'a str) -> (command: Command<'a>)
        ensures
            command@ == CommandView::PutScript(name@, script@),
    {
        Command::PutScript(SieveStr(name.as_str()), SieveStr(script))
    }

    pub fn list_scripts() -> (command: Command<'a>)
        ensures
            command@ == CommandView::ListScripts,
    {
        Command::ListScripts
    }

    pub fn set_active(name: SieveNameStr<'a>) -> (command: Command<'a>)
        ensures
            command@ == CommandView::SetActive(name@),
    {
        Command::SetActive(SieveStr(name.as_str()))
    }

    pub fn get_script(name: SieveNameStr<'a>) -> (command: Command<'a>)
        ensures
            command@ == CommandView::GetScript(name@),
    {
        Command::GetScript(SieveStr(name.as_str()))
    }

    pub fn deletescript(name: SieveNameStr<'a>) -> (command: Command<'a>)
        ensures
            command@ == CommandView::DeleteScript(name@),
    {
        Command::DeleteScript(SieveStr(name.as_str()))
    }

    pub fn renamescript(old_name: SieveNameStr<'a>, new_name: SieveNameStr<'a>) -> (command:
        Command<'a>)
        ensures
            command@ == CommandView::RenameScript(old_name@, new_name@),
    {
        Command::RenameScript(SieveStr(old_name.as_str()), SieveStr(new_name.as_str()))
    }

    pub fn checkscript(script: &'a str) -> (command: Command<'a>)
        ensures
            command@ == CommandView::CheckScript(script@),
    {
        Command::CheckScript(SieveStr(script))
    }

    pub fn noop() -> (command: Command<'a>)
        ensures
            command@ == CommandView::Noop,
    {
        Command::Noop
    }

    pub fn unauthenticate() -> (command: Command<'a>)
        ensures
            command@ == CommandView::UnAuthenticate,
    {
        Command::UnAuthenticate
    }

    /// Writes the command out.
    pub fn to_text(&self) -> (text: String)
        requires
            self@.encodable(),
        ensures
            text@ == self@.wire(),
    {
        match self {
            Command::Authenticate { auth_type, message } => {
                let mut text = "AUTHENTICATE ".to_owned();
                let auth_type = auth_type.to_text();
                text.append(auth_type.as_str());
                if let Some(message) = message {
                    text.append(" ");
                    let message = message.to_text();
                    text.append(message.as_str());
                    assert(text@ =~= "AUTHENTICATE "@ + auth_type@ + (" "@ + message@));
                } else {
                    assert(text@ =~= "AUTHENTICATE "@ + auth_type@ + Seq::<char>::empty());
                }
                text.append("\r\n");
                text
            },
            Command::SaslResponse(response) => {
                let mut text = response.to_text();
                text.append("\r\n");
                text
            },
            Command::SaslAbort => {
                let mut text = SieveStr("*").to_text();
                text.append("\r\n");
                text
            },
            Command::StartTls => "STARTTLS\r\n".to_owned(),
            Command::Logout => "LOGOUT\r\n".to_owned(),
            Command::Capability => "CAPABILITY\r\n".to_owned(),
            Command::HaveSpace(name, size) => {
                let mut text = "HAVESPACE ".to_owned();
                let name = name.to_text();
                text.append(name.as_str());
                text.append(" ");
                let size = decimal_text(*size);
                text.append(size.as_str());
                text.append("\r\n");
                text
            },
            Command::PutScript(name, script) => {
                let mut text = "PUTSCRIPT ".to_owned();
                let name = name.to_text();
                text.append(name.as_str());
                text.append(" ");
                let script = script.to_text();
                text.append(script.as_str());
                text.append("\r\n");
                text
            },
            Command::ListScripts => "LISTSCRIPTS\r\n".to_owned(),
            Command::SetActive(name) => Self::with_name("SETACTIVE ", name),
            Command::GetScript(name) => Self::with_name("GETSCRIPT ", name),
            Command::DeleteScript(name) => Self::with_name("DELETESCRIPT ", name),
            Command::RenameScript(old_name, new_name) => {
                let mut text = "RENAMESCRIPT ".to_owned();
                let old_name = old_name.to_text();
                text.append(old_name.as_str());
                text.append(" ");
                let new_name = new_name.to_text();
                text.append(new_name.as_str());
                text.append("\r\n");
                text
            },
            Command::CheckScript(script) => Self::with_name("CHECKSCRIPT ", script),
            Command::Noop => "NOOP\r\n".to_owned(),
            Command::UnAuthenticate => "UNAUTHENTICATE\r\n".to_owned(),
        }
    }

    /// A verb, one literal and the line break.
    fn with_name(verb: &str, argument: &SieveStr<'a>) -> (text: String)
        ensures
            text@ == verb@ + argument.wire() + "\r\n"@,
    {
        let mut text = verb.to_owned();
        let argument = argument.to_text();
        text.append(argument.as_str());
        text.append("\r\n");
        text
    }
}

} // verus!
