//! Reading of the session store that the Devin command line keeps.

pub mod adapter;
pub mod chain;
pub mod event_laws;
pub mod events;
pub mod json;
pub mod message;
pub mod message_laws;
pub mod node_laws;
pub mod parse;
pub mod paths;
pub mod scan;
pub mod scan_laws;
pub mod session;
pub mod session_laws;
pub mod session_reading_laws;
pub mod store;
pub mod sync;
pub mod text;
pub mod transcript_laws;
pub mod types;
pub mod view_laws;
