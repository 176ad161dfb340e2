//! A development static-file HTTP server, verified.
//!
//! The crate holds the server's decision logic: glob-based access
//! filtering, basic-authentication checking, URL-to-path resolution,
//! directory-listing rendering, the per-request pipeline plan, and the
//! hot-reload broadcast model. I/O (sockets, filesystem, threads) stays
//! outside; these functions take plain values and return plain values.

pub mod auth;
pub mod globs;
pub mod hotreload;
pub mod html;
pub mod log;
pub mod pipeline;
pub mod strutil;
pub mod urlpath;
