//! Building blocks for differentially private computations.
//!
//! A pipeline is assembled from transformations and measurements. Each of them
//! bundles a computation with the domains it maps between, the metrics or
//! measures in which distances are expressed, and a relation that bounds how far
//! outputs may move when inputs move. The combinators in [`kernel`] join such
//! bundles and state, in their contracts, what the joined bundle computes.
//!
//! - [`func`]: computations as values, and how they chain and fan out.
//! - [`kernel`]: domains, metrics and measures as traits; functions, hints,
//!   measurements and transformations; chaining and composition.
//! - [`relation`]: privacy and stability relations, and how relations chain.
//! - [`dom`]: the domains that the library provides.
//! - [`dist`]: the metrics and measures that the library provides.
//! - [`traits`]: distances as whole numbers, and casts between types of data.
//! - [`trans`]: ready-made transformations.
//! - [`error`]: what constructors report when they refuse their parameters.

pub mod dist;
pub mod dom;
pub mod error;
pub mod func;
pub mod kernel;
pub mod relation;
pub mod traits;
pub mod trans;
