//! Mail-ingress gateway core: message parsing, signed API request
//! construction, recipient-validation decisions, and the two line-oriented
//! protocol state machines (policy delegation and inbound delivery).
//!
//! Everything here is pure with respect to the outside world: sockets,
//! files, clocks and HTTP belong to the program around the library, which
//! feeds lines and lookup outcomes in and carries requests and replies
//! out.

pub mod api_client;
pub mod delivery;
pub mod email_parser;
pub mod json;
pub mod pipeline;
pub mod policy;
pub mod strutil;
