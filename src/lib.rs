//! A boundary layer for a logic-programming engine: the encoding of terms
//! and answers as JSON text, the state machine of a resumable query, the
//! one-shot runner built on it, and the lifecycle table of handles.

pub mod term;
pub mod json;
pub mod query;
pub mod registry;
pub mod answer;
pub mod libpaths;
