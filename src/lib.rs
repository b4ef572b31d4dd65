//! Composition of the filesystem that a sandboxed guest program sees: host
//! directories mounted into an in-memory root tree, the list of preopened
//! guest directories, and the retry of relative paths in their absolute form.

pub mod path;
pub mod tree;
pub mod mapping;
pub mod ensure;
pub mod plan;
pub mod fallback;
pub mod env;
