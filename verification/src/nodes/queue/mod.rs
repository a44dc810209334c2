//! The first form of the request types, kept beside `nodes::request`.
pub mod request;
