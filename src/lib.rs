//! A client for HTTP requests kept as plain text files, one directory per project.
//!
//! The request file format is read by [`codec::parse_http_file`] and written by
//! [`codec::format_http_file`]; the store's layout and listing rules are in [`store`];
//! the terminal interface's state machine is in [`app`] and [`state`].

pub mod app;
pub mod codec;
pub mod error;
pub mod order;
pub mod project;
pub mod repository;
pub mod request;
pub mod response;
pub mod roundtrip;
pub mod state;
pub mod store;
pub mod text;
pub mod transport;
pub mod usecase;
