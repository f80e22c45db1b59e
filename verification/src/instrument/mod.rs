//! What an instrumented process does with its spans and log events.

pub mod extension;
pub mod laws;
pub mod layer;
pub mod visitor;

pub use extension::TracingExtension;
