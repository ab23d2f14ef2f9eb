//! The phases of a connection, as types: whether the transport is
//! encrypted, and whether the client has authenticated.

use vstd::prelude::*;

mod sealed;

verus! {

/// Whether the client has authenticated.
pub trait AuthMode: sealed::Sealed {
}

/// The client has authenticated.
#[derive(Debug, PartialEq, Eq, Clone, Copy)]
pub struct Authenticated;

/// The client has not authenticated.
#[derive(Debug, PartialEq, Eq, Clone, Copy)]
pub struct Unauthenticated;

impl AuthMode for Authenticated {
}

impl AuthMode for Unauthenticated {
}

/// Whether the transport is encrypted.
pub trait TlsMode: sealed::Sealed {
}

/// The transport is as it was opened.
#[derive(Debug, PartialEq, Eq, Clone, Copy)]
pub struct NoTls;

/// The transport is encrypted.
#[derive(Debug, PartialEq, Eq, Clone, Copy)]
pub struct Tls;

impl TlsMode for NoTls {
}

impl TlsMode for Tls {
}

} // verus!
