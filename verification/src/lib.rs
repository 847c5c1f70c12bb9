//! A verified core for a client of the Pocket reading-list API: it prepares
//! every request (URL, headers, JSON body) and judges every reply, while the
//! sending and receiving is left to the caller.
pub mod client;
pub mod config;
pub mod decimal;
pub mod error;
pub mod form;
pub mod json_body;
pub mod laws;
pub mod path;
pub mod reply;
pub mod request_builder;
pub mod responses;
pub mod token_receiver;
pub mod url_ops;

pub use crate::client::PocketApiClient;
pub use crate::config::PocketApiConfig;
pub use crate::token_receiver::PocketApiTokenReceiver;
