//! Learning from conversations, and bringing what was learnt into requests.
pub mod agent;
pub mod calendar;
pub mod curate;
pub mod distill;
pub mod docs;
pub mod embed;
pub mod eventlog;
pub mod facts;
pub mod gate;
pub mod inject;
pub mod laws;
pub mod llm;
pub mod proactive;
pub mod reflect;
pub mod research;
pub mod store;
pub mod switches;
pub mod tool_laws;
pub mod verify;
