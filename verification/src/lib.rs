//! Rewrites the registry origin of every `resolved` URL in a package lock
//! document, to switch a lock file between a local and a remote registry.
//!
//! - [`json`]: the document and its model.
//! - [`origin`]: replacing the origin of one URL; the search is done by the
//!   `regex` crate.
//! - [`rewrite`]: the traversal, [`update_urls`].
//! - [`paths`] and [`pattern`]: theorems on what the traversal changes and
//!   what it keeps.
//! - [`codec`]: JSON text to documents and back, by way of `serde_json`.
//! - [`lockfile`]: one run, from the texts of the two files to the new text
//!   of the lock file, [`update_urls_in_package_lock`].

pub mod codec;
pub mod json;
pub mod lockfile;
pub mod origin;
pub mod paths;
pub mod pattern;
pub mod rewrite;

pub use json::Json;
pub use lockfile::{update_urls_in_package_lock, Mode, Source, UpdateError};
pub use rewrite::update_urls;
