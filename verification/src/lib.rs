//! A minimal plugin host.
//!
//! A host loads a plugin from a shared library, obtains a command handler
//! through the library's one mandatory export, and hands the handler every
//! command of an interactive session until the exit keyword comes or the
//! input ends.
//!
//! This crate holds what the host decides and the proofs that it decides
//! well; the calls into the system loader, into the plugin's entry point and
//! to the terminal are made by its caller.
//!
//! - [`contract`]: what a plugin has to provide.
//! - [`host`]: the record of loaded libraries and their handlers.
//! - [`session`]: the session as a state machine, and what holds of every
//!   session.
//! - [`text`]: trimming and comparing command text.
//! - [`report`]: exit status and messages.
//! - [`plugin1`]: the answers of the example plugin.

pub mod contract;
pub mod host;
pub mod plugin1;
pub mod report;
pub mod session;
pub mod text;

pub use crate::contract::Plugin;
