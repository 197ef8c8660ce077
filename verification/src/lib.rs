//! A live-reload development server library.
//!
//! The crate models the decision logic of a small development web server:
//! request-path resolution with containment, directory-listing generation,
//! MIME-typed static file responses, debounced filesystem-change detection,
//! live-reload broadcasting, port selection with fallback scanning, and the
//! supervision policy that runs the HTTP server next to an external CSS
//! compiler. All filesystem, network and process work is left to a thin
//! binary shell; every function here carries a verified contract.

pub mod cli;
pub mod init;
pub mod server;
pub mod start;
pub mod strutil;
pub mod tailwind;
pub mod template;
pub mod validate;
