//! Client-side engine for the ManageSieve protocol.
//!
//! The library holds the logic of a client and none of its input and
//! output. It reads buffers and answers with values; it is handed the
//! answers of a server and says what they mean; it says what is to be sent
//! and leaves the sending to its caller.
//!
//! * [`parser`] reads the bytes of a server: [`parser::grammar`] says what
//!   the protocol's grammar makes of a buffer, the other modules of the
//!   parser compute it, and [`parser::laws`] and [`parser::stable`] prove
//!   what holds of the grammar whatever the bytes are.
//! * [`reader`] gathers the chunks of one response until it is whole.
//! * [`command`] writes the commands of a client.
//! * [`capabilities`] checks what a server announces about itself.
//! * [`connection`] is the connection in its phases ([`state`]), with the
//!   meaning of each answer of the server; [`authenticate`] is the SASL
//!   negotiator, which drives a mechanism ([`sasl`]) through an exchange.
//! * [`codec`] holds what is taken on trust from outside the library: UTF-8
//!   as `core` checks it, decimal notation as `itoa` writes it, and base64
//!   as the `base64` crate encodes and decodes it.

pub mod authenticate;
pub mod capabilities;
pub mod codec;
pub mod command;
pub mod commands;
pub mod connection;
pub mod error;
pub mod parser;
pub mod reader;
pub mod response;
pub mod sasl;
pub mod sieve_name;
pub mod state;

pub use capabilities::{Capabilities, CapabilitiesError, Version};
pub use connection::Connection;
pub use error::SieveError;
pub use response::{ExtensionItem, Quota, ResponseCode, ResponseInfo};
pub use sieve_name::{SieveNameError, SieveNameStr, SieveNameString};
