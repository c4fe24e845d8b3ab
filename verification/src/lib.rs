//! Fetching digital textbooks from a portal that knows its users by their
//! session cookies: signing in, reading the catalog, the form handshake that
//! opens a book, the book's metadata, its vector pages, and the raster assets
//! that the pages refer to.
//!
//! The library decides and computes; it sends nothing and stores nothing.
//! Whoever uses it performs the requests that it asks for and hands back what
//! came of them. Searching markup for patterns is the work of the `regex`
//! crate, keeping cookies that of the cookie store of `reqwest_cookie_store`;
//! the contracts name what these give and state the rest.

pub mod assets;
pub mod crawl;
pub mod errors;
pub mod fetch;
pub mod form;
pub mod http;
pub mod layout;
pub mod login;
pub mod manifest;
pub mod metadata;
pub mod navigate;
pub mod order;
pub mod pages;
pub mod pattern;
pub mod session;
pub mod text;
pub mod version;
