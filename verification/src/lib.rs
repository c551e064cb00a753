//! Verified core of a small directory-listing web server.

pub mod auth;
pub mod browse;
pub mod clock;
pub mod encoding;
pub mod listing;
pub mod namemap;
pub mod request;
pub mod response;
pub mod secret;
pub mod text;
