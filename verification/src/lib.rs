//! Generator of typed wrapper components that let a native UI framework host
//! the components of a foreign UI library.
//!
//! A schema of property types and components goes in, as an analyzer found
//! them in the declarations of the foreign library. The source text of one
//! module comes out. It holds a properties container for each type and, for
//! each component, a render bridge and a wrapper component:
//!
//! - [`schema`] holds the schema and removes types of a name that was seen;
//! - [`intrinsic`] maps the intrinsic types to native types and conversions;
//! - [`container`] writes the properties container of a type;
//! - [`bridge`] writes the two render functions of a component, one on each
//!   side of the boundary;
//! - [`wrapper`] writes the component that owns the mount point;
//! - [`driver`] takes in a run of the analyzer and puts the module together;
//! - [`text`] has what all of them write with;
//! - [`error`] has the failures.
//!
//! Generation is all or nothing. Every function that writes source text
//! states the exact text in its contract, and the properties keep one order
//! everywhere: that of the schema.

pub mod bridge;
pub mod container;
pub mod driver;
pub mod error;
pub mod intrinsic;
pub mod schema;
pub mod text;
pub mod wrapper;

pub use bridge::component_render_function;
pub use container::component_props_struct;
pub use driver::{generate_module, ingest, react_component_mod, AnalyzerRun};
pub use error::GenerationError;
pub use intrinsic::IntrinsicType;
pub use schema::{AnalyzerOutput, Component, Type, TypeProperty};
pub use wrapper::component_struct_and_impl;
