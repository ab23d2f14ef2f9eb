//! Keeps the phases of a connection a closed set.

use vstd::prelude::*;
use crate::state::{Authenticated, NoTls, Tls, Unauthenticated};

verus! {

pub trait Sealed {
}

impl Sealed for Authenticated {
}

impl Sealed for Unauthenticated {
}

impl Sealed for NoTls {
}

impl Sealed for Tls {
}

} // verus!
