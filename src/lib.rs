//! A cache of cluster objects kept up to date from watch streams.
//!
//! Configured resources are resolved against the cluster's discovery catalog
//! (`resolver`), each match is watched through selectors whose events become commands
//! (`watch`, `watch_event`), objects without a type get one from their REST path
//! (`inference`), and a single engine applies the commands to a map keyed by
//! `namespace/name` and purges what the cluster no longer has (`cache`). Connection
//! retries follow `backoff`; settings and their checks are in `configuration`; catalog
//! entities built from settings and cached objects are in `entities`.
pub mod backoff;
pub mod cache;
pub mod cluster;
pub mod configuration;
pub mod entities;
pub mod errors;
pub mod inference;
pub mod resolver;
pub mod store;
pub mod strings;
pub mod version;
pub mod watch;
pub mod watch_event;
