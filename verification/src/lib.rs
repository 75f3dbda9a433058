//! Schema-driven code generation for a simulation worker SDK.
//!
//! The crate loads a typed model of a schema bundle (enums, structured
//! types, components), resolves cross-package references through a
//! dependency table, and renders source text for one target package in a
//! deterministic, diff-friendly order.  It also contains the typed runtime
//! counterpart of that generated code for the example schema: component
//! values, partial updates with field-wise merge, and command
//! request/response dispatch over a modelled schema wire object.

pub mod bundle;
pub mod casing;
pub mod entity;
pub mod example;
pub mod gen;
pub mod id_map;
pub mod ids;
pub mod improbable;
pub mod module_tree;
pub mod restricted;
pub mod schema;
pub mod text;

pub use ids::Authority;
pub use ids::EntityId;
pub use ids::RequestId;
