//! Core engine of a desktop HTTP request composer: a recursive
//! collection/folder/request data model with path-based addressing,
//! an environment-variable resolution engine, request construction
//! (query strings, headers, multi-kind bodies), response shaping,
//! a single-in-flight send gate, and JSON persistence of workspaces.

pub mod model;
pub mod ids;
pub mod text;
pub mod address;
pub mod resolve;
pub mod url;
pub mod executor;
pub mod response;
pub mod gate;
pub mod store;
pub mod json;
