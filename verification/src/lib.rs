//! Transforms an annotated, JSON-like document tree into an OpenAPI
//! specification: routes become paths and operations, document values become
//! inferred schemas, and named components are collected in a registry.
//!
//! The engine is pure: it consumes an already-parsed document tree and either
//! returns a complete specification or a non-empty list of diagnostics.
use vstd::prelude::*;

pub mod doc;
pub mod endpoint;
pub mod entries;
pub mod error;
pub mod json;
pub mod laws;
pub mod loader;
pub mod openapi;
pub mod route;
pub mod schema;
pub mod schema_json;
pub mod strings;

pub use doc::Annotation;
pub use doc::Node;
pub use doc::NodeValue;
pub use doc::Position;
pub use doc::Property;
pub use error::Error;
pub use json::Json;
pub use loader::get_components_mut;
pub use loader::parse;
pub use openapi::ComponentKind;
pub use openapi::Components;
pub use openapi::Header;
pub use openapi::Info;
pub use openapi::InlineSchema;
pub use openapi::MediaType;
pub use openapi::MethodKind;
pub use openapi::ObjectOrReference;
pub use openapi::Openapi;
pub use openapi::Operation;
pub use openapi::Parameter;
pub use openapi::PathItem;
pub use openapi::RequestBody;
pub use openapi::Response;
pub use openapi::Schema;

verus! {

} // verus!
