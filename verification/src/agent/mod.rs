//! The agent inside an instrumented process and the client that talks to it.

pub mod agent_state;
pub mod client;
pub mod conduct;
pub mod connection;
pub mod directive;
pub mod error;
pub mod extension;
pub mod filter;
pub mod laws;
pub mod mpsc;
pub mod process;
pub mod start;

pub use agent_state::{AgentContext, AgentState, State};
pub use client::AgentClient;
pub use error::AgentError;
pub use extension::{AgentHandle, Extension, ExtensionError};
pub use mpsc::{Consumer, Producer};
