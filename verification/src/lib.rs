//! Template instantiation: a validated question manifest, path and content
//! rendering, conflict-aware planning and a step-by-step executor.

pub mod conflict;
pub mod context;
pub mod destination;
pub mod execute;
pub mod manifest;
pub mod marker;
pub mod paths;
pub mod plan;
pub mod registry;
pub mod render;
pub mod text;
