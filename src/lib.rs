//! Selection of files from a directory tree by layered include and exclude
//! rules, and their serialization into delimited text blocks.
//!
//! - `glob`: glob patterns over paths.
//! - `rules`: the resolved rule set and the decision on one path.
//! - `resolve`: merging of contributions from several sources.
//! - `walk`: selection among the entries found under a root.
//! - `serialize`: the delimited blocks of files and of the tree.
//! - `laws`: properties of the above for all inputs.
//! - `text`: character-sequence helpers.

pub mod glob;
pub mod laws;
pub mod resolve;
pub mod rules;
pub mod serialize;
pub mod text;
pub mod walk;
