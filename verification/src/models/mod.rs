//! The messages of the two chat APIs.
pub mod anthropic;
pub mod openai;
