//! Short-code mapping engine of a URL-shortening service: code generation,
//! URL normalization, the mapping store, shortening and resolution.

pub mod codegen;
pub mod normalize;
pub mod store;
pub mod service;
