//! Verified core of a small family of HTMX web services: a todo store with
//! its use cases, the view-data debug comment that is embedded in rendered
//! pages, sample view builders and the runtime settings of the servers.
//!
//! Everything that touches the network, the disk, templates or a database
//! lives in the `app` crate; this crate decides and computes.
pub mod text;
pub mod view_data;
pub mod model;
pub mod service;
pub mod usecase;
pub mod user;
pub mod report;
pub mod config;
pub mod reply;
pub mod templates;
pub mod words;
