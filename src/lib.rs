//! Conversion of paginated documents into slide decks: script generation for
//! the presentation application, spool file naming, page geometry and the
//! conversion job's state machine.

pub mod job;
pub mod page;
pub mod script;
pub mod spool;
pub mod text;
