//! Resolves a client address to an ISO country code from an in-memory
//! MaxMind country database that is loaded once and then shared.

pub mod address;
pub mod api_helper;
pub mod cache;
pub mod handler;
pub mod index;
pub mod reply;
pub mod resolver;
pub mod source;
