//! Core of a mock HTTP server: a registry of dynamic endpoints keyed by
//! (method, path template), a path-template matcher, a request-dispatch
//! cascade, upstream-forwarding rules, OpenAPI-style import and export of
//! the registry, and an in-memory trace of handled requests.
//!
//! Everything here is ordinary in-memory data and decisions; the HTTP
//! plumbing (listening, forwarding over the network, serialization of
//! documents) lives outside this crate and calls in with plain values.

pub mod dispatch;
pub mod forward;
pub mod json;
pub mod openapi;
pub mod store;
pub mod management;
pub mod matcher;
pub mod model;
pub mod text;
