//! An interaction router for a chat platform's webhook callbacks.
//!
//! Inbound requests are authenticated against an Ed25519 public key on the
//! raw body bytes, decoded into a typed interaction, and dispatched to a
//! handler registered under a canonical command-path key; the handler's
//! result is encoded back into the platform's response envelope.

pub mod auth;
pub mod command;
pub mod decode;
pub mod dispatch;
pub mod encode;
pub mod model;
pub mod registry;

pub use auth::VerifierKey;
pub use command::CommandPath;
pub use dispatch::Routed;
pub use encode::{HandlerResult, HttpResponse, ResponseEnvelope};
pub use model::{CommandData, CommandOption, Interaction, OptionValue};
pub use registry::CommandRegistry;
