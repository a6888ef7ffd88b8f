//! Symbol extraction from the debug-information tree of one translation unit.
pub mod decode;
pub mod handlers;
pub mod laws;
pub mod location;
pub mod machine;
pub mod model;
pub mod table;
pub mod walker;
