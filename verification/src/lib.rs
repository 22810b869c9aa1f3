//! Theme management for a static-site generator: a catalog of themes
//! extracted from documentation metadata, an idempotent fetcher that
//! resolves a theme to its repository, and a patcher that rewrites the
//! project configuration to reference the installed theme.

pub mod catalog;
pub mod extractor;
pub mod fetcher;
pub mod installer;
pub mod lines;
pub mod patcher;
pub mod text;
