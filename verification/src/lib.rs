//! A proxy between two chat APIs: clients of the Messages API are served by upstreams that speak
//! Chat Completions.
pub mod config;
pub mod daemon;
pub mod error;
pub mod json;
mod keys;
pub mod models;
pub mod numerals;
pub mod search;
pub mod searx;
pub mod skills;
pub mod strmap;
pub mod text;
pub mod text_laws;
pub mod translate;
pub mod websearch;
