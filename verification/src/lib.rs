//! The calling convention between a contract and the Polymesh runtime that
//! hosts it.
//!
//! A contract reaches the runtime through numbered operations. For each call
//! it sends the operation's identifier and the encoded arguments; the runtime
//! answers with a status code and, for some operations, an encoded value.
//! This crate holds the table of operations ([`registry`]), the wire form of
//! every argument and result ([`codec`], [`types`], [`encoded`]), the meaning
//! of status codes ([`status`]), the composition of requests ([`call`]) and
//! the handling of answers ([`dispatch`]), and the types of the chain
//! ([`environment`]).
//!
//! The crate never talks to the runtime itself: it turns a call into a
//! request and an answer into an outcome, and leaves the transport to its
//! user.

pub mod call;
pub mod codec;
pub mod dispatch;
pub mod encoded;
pub mod environment;
mod ink;
pub mod registry;
mod scale;
pub mod status;
pub mod types;
pub mod wire;

pub use crate::dispatch::{new_instance, PolymeshRuntimeInstance};
pub use crate::encoded::Encoded;
pub use crate::environment::PolymeshEnvironment;
pub use crate::registry::PolymeshRuntime;
pub use crate::status::PolymeshRuntimeErr;
