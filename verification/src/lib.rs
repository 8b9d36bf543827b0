//! Typed HTTP routing with OpenAPI metadata, verified with Verus.

pub mod app;
pub mod bench;
pub mod compile;
pub mod derive;
pub mod dispatch;
pub mod error;
pub mod extract;
pub mod fields;
pub mod headers;
pub mod json;
pub mod laws;
pub mod method;
pub mod number;
pub mod openapi;
pub mod params;
pub mod path;
pub mod payload;
pub mod percent;
pub mod plan;
pub mod query;
pub mod registry;
pub mod response;
pub mod router;
pub mod runtime;
pub mod schema;
pub mod settings;
mod shared;
pub mod status;
pub mod text;
pub mod trie;
pub mod uri;
