//! Named bundles of the sizes that fix this crate's generic containers.
pub mod minimal;
