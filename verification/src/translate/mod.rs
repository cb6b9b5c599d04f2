//! Translation between the two chat APIs.
pub mod blocks;
pub mod browsing;
pub mod limits;
pub mod messages;
pub mod order;
pub mod protocol;
pub mod reading;
pub mod request;
pub mod response;
pub mod routing;
pub mod schema;
pub mod sending;
pub mod stream;
pub mod terms;
pub mod tools;
pub mod websearch_agent;
