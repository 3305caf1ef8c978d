pub mod admin;
pub mod bulk;
pub mod config;
pub mod connection;
pub mod document;
pub mod error;
pub mod fs;
pub mod json;
pub mod object_id;
pub mod proxy;
pub mod query;
pub mod relational;
pub mod text;
pub mod types;
