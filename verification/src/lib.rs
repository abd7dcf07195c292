//! A directory-tree renderer.
//!
//! The library works on an in-memory snapshot of a filesystem subtree
//! ([`tree::Entry`]) and produces the indented, box-drawing text lines for
//! it, skipping directories whose names are configured as excluded and all
//! hidden (dot-prefixed) directories. It also resolves the exclusion list
//! from a comma-separated configuration string and builds the fixed
//! header and error messages. All I/O (reading directories, loading the
//! configuration, printing) stays outside the library.

pub mod exclude;
pub mod laws;
pub mod messages;
pub mod render;
pub mod tree;
