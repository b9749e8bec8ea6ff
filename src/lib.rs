//! Client-side decryption engine for an end-to-end encrypted mail service.
//!
//! The library resolves the content key of a mail through a layered key
//! hierarchy (owner key, symmetric permission, public bucket through RSA,
//! external bucket through an auxiliary symmetric key) and decrypts the
//! subject, the sender name and the compressed body with it.
//!
//! Network access is not part of the library: the resolver is a sequence of
//! steps, each of which either finishes or names the record it needs next.

pub mod config;
pub mod content;
pub mod http;
pub mod mailbox;
pub mod crypto;
pub mod resolver;
pub mod types;
pub mod updates;
pub mod user;
pub mod wire;
