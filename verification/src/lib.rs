//! Verified core of a personal content-capture backend: bookmark metadata
//! fetching with bounded retries, search-index synchronization, and
//! supervision of an external search-engine sidecar process.

pub mod bookmarks;
pub mod files;
pub mod item;
pub mod search;
pub mod sidecar;
pub mod store;
pub mod text;
pub mod time;
