//! Pipeline runtime synthesis from annotated shader interfaces.
//!
//! Given a shader module whose entry points and uniform declarations are
//! described by plain records, this library discovers the graphics pipelines
//! the module defines, computes their vertex attribute layouts and
//! descriptor-set layouts, and models the runtime objects needed to create,
//! cache, and destroy those pipelines and their descriptor resources.

pub mod interface;
pub mod layout;
pub mod names;
pub mod parse;
pub mod source;
pub mod extract;
pub mod plan;
pub mod pool;
pub mod registry;

