//! What the operations of a connection come to.

pub use crate::authenticate::Authenticate;
pub use crate::connection::{CheckScript, HaveSpace, PutScript};
