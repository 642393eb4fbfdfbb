//! Supervision of a long-running worker process that talks over its standard
//! streams in newline-delimited messages: finding the runtime that runs it,
//! locating its entry script, owning its lifecycle, and relaying its lines.
pub mod supervisor;
pub mod bridge;
pub mod runtime;
pub mod layout;
pub mod git;
