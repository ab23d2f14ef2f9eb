//! Script names that are safe to put on the wire.

use vstd::prelude::*;

verus! {

/// Characters that a script name must not contain: the C0 controls, DEL and
/// the C1 controls, and the Unicode line and paragraph separators.
pub open spec fn is_bad_char(c: char) -> bool {
    ||| (c as u32) <= 0x1f
    ||| 0x7f <= (c as u32) <= 0x9f
    ||| (c as u32) == 0x2028
    ||| (c as u32) == 0x2029
}

/// A name is bad as soon as one of its characters is.
pub open spec fn is_bad_name(name: Seq<char>) -> bool {
    exists|i: int| 0 <= i < name.len() && is_bad_char(#[trigger] name[i])
}

pub fn is_bad_sieve_name_char(c: char) -> (bad: bool)
    ensures
        bad == is_bad_char(c),
{
    let code: u32 = c as u32;
    code <= 0x1f || (0x7f <= code && code <= 0x9f) || code == 0x2028 || code == 0x2029
}

pub fn is_bad_sieve_name(name: &str) -> (bad: bool)
    ensures
        bad == is_bad_name(name@),
{
    let mut bad = false;
    for c in it: name.chars()
        invariant
            it.seq() == name@,
            bad == exists|i: int| 0 <= i < it.index() && is_bad_char(#[trigger] name@[i]),
    {
        if is_bad_sieve_name_char(c) {
            bad = true;
        }
    }
    bad
}

/// The one way in which a script name can be wrong: it holds a character
/// that the protocol forbids in names.
#[derive(Debug, PartialEq, Eq, Clone, Copy, Structural)]
pub struct SieveNameError;

impl SieveNameError {
    pub open spec fn text(self) -> Seq<char> {
        "the given sieve script name is illegal"@
    }

    pub fn message(&self) -> (text: String)
        ensures
            text@ == self.text(),
    {
        "the given sieve script name is illegal".to_owned()
    }
}

/// An owned script name. It never holds a forbidden character.
#[derive(Debug, PartialEq, Eq)]
pub struct SieveNameString {
    name: String,
}

impl Clone for SieveNameString {
    fn clone(&self) -> (copy: SieveNameString)
        ensures
            copy@ == self@,
    {
        proof {
            use_type_invariant(self);
        }
        SieveNameString { name: self.name.clone() }
    }
}

impl View for SieveNameString {
    type V = Seq<char>;

    closed spec fn view(&self) -> Seq<char> {
        self.name@
    }
}

impl DeepView for SieveNameString {
    type V = Seq<char>;

    open spec fn deep_view(&self) -> Seq<char> {
        self@
    }
}

impl SieveNameString {
    #[verifier::type_invariant]
    spec fn good(self) -> bool {
        !is_bad_name(self.name@)
    }

    /// Accepts `name` unless it holds a forbidden character.
    pub fn new(name: String) -> (result: Result<SieveNameString, SieveNameError>)
        ensures
            result is Err <==> is_bad_name(name@),
            result matches Ok(accepted) ==> accepted@ == name@,
    {
        if is_bad_sieve_name(name.as_str()) {
            Err(SieveNameError)
        } else {
            Ok(SieveNameString { name })
        }
    }

    /// Accepts a copy of `name` unless it holds a forbidden character.
    pub fn from_str(name: &str) -> (result: Result<SieveNameString, SieveNameError>)
        ensures
            result is Err <==> is_bad_name(name@),
            result matches Ok(accepted) ==> accepted@ == name@,
    {
        SieveNameString::new(name.to_owned())
    }

    pub fn as_sieve_name_str(&self) -> (name: SieveNameStr<'_>)
        ensures
            name@ == self@,
    {
        proof {
            use_type_invariant(self);
        }
        SieveNameStr { name: self.name.as_str() }
    }

    pub fn as_str(&self) -> (name: &str)
        ensures
            name@ == self@,
            !is_bad_name(name@),
    {
        proof {
            use_type_invariant(self);
        }
        self.name.as_str()
    }

    /// Gives the name back as a plain string.
    pub fn into_string(self) -> (name: String)
        ensures
            name@ == self@,
            !is_bad_name(name@),
    {
        proof {
            use_type_invariant(&self);
        }
        self.name
    }
}

/// A borrowed script name. It never holds a forbidden character.
#[derive(Debug, PartialEq, Eq, Clone, Copy)]
pub struct SieveNameStr<'a> {
    name: &'a str,
}

impl<'a> View for SieveNameStr<'a> {
    type V = Seq<char>;

    closed spec fn view(&self) -> Seq<char> {
        self.name@
    }
}

impl<'a> SieveNameStr<'a> {
    #[verifier::type_invariant]
    spec fn good(self) -> bool {
        !is_bad_name(self.name@)
    }

    /// Accepts `name` unless it holds a forbidden character.
    pub fn new(name: &'a str) -> (result: Result<SieveNameStr<'a>, SieveNameError>)
        ensures
            result is Err <==> is_bad_name(name@),
            result matches Ok(accepted) ==> accepted@ == name@,
    {
        if is_bad_sieve_name(name) {
            Err(SieveNameError)
        } else {
            Ok(SieveNameStr { name })
        }
    }

    pub fn as_str(&self) -> (name: &'a str)
        ensures
            name@ == self@,
            !is_bad_name(name@),
    {
        proof {
            use_type_invariant(self);
        }
        self.name
    }
}

} // verus!
