//! Identity and ownership-authorization core of a blogging backend: session
//! tokens, credential hashing, request authentication and the atomic
//! owner-checked mutation pattern, together with the article slug rule.

pub mod crypto;
pub mod text;

pub mod auth;
pub mod config;
pub mod error;
pub mod guard;
pub mod password;
pub mod profile;
pub mod slug;
pub mod token;
