//! Host-side core of a remote-development bridge.
//!
//! - `frame`: length-prefixed frames with a 16 MiB cap.
//! - `json`, `decimal`: the JSON tree and the number text it carries.
//! - `protocol`: requests, responses and notifications, and their envelope.
//! - `server`: the handler registry and the per-connection dispatcher.
//! - `client`: request identifiers and the matching of responses to callers.
//! - `terminal`: the registry of live terminal sessions.
//! - `params`, `methods`: the method catalog, its params and results.
//! - `fs`, `git`, `text`: the filesystem capability and version-control output.
//! - `store`, `auth`, `pairing`: paired devices, pairing tokens, passwords.
//! - `buffer`: a text buffer indexed by line.
//! - `encoding`: URL-safe base64.

pub mod frame;
pub mod json;
pub mod decimal;
pub mod protocol;
pub mod server;
pub mod client;
pub mod encoding;
pub mod terminal;
pub mod params;
pub mod methods;
pub mod store;
pub mod auth;
pub mod pairing;
pub mod fs;
pub mod text;
pub mod git;
pub mod buffer;
pub mod lsp;
