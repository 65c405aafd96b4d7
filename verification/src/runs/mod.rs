//! Agent runs: which session is next, what its prompt is, and what becomes of
//! its messages.

pub mod formatter;
pub mod queue;
pub mod supervisor;
