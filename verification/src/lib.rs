//! Scaffolding pipeline for a daily programming-puzzle site.
//!
//! The library covers the puzzle content pipeline: gating access by unlock
//! time, resolving the authenticated requests the site expects, extracting
//! and cleaning meaningful content from raw HTML, rendering file templates
//! against a per-day context, and planning idempotent writes to disk.
//! Network and file-system effects themselves live outside the library; the
//! functions here compute every decision and every piece of content from
//! plain values, with contracts that pin the results down.

pub mod client;
pub mod error;
pub mod fetch;
pub mod files;
pub mod submit;
pub mod template;
pub mod text;
pub mod time;
