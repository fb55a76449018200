//! A source-to-source pass that prepares component modules for fast refresh:
//! it classifies top-level declarations, computes a deterministic signature
//! of each component's state-affecting calls, tracks the `@refresh reset`
//! pragma through nested spans, and inserts the registration calls the
//! refresh runtime consumes. The host parser and printer stay outside; the
//! pass works on the plain data model of this crate.

pub mod ast;
pub mod classify;
pub mod comments;
pub mod reset;
pub mod signature;
pub mod span;
pub mod text;
pub mod transform;

pub use transform::Prefresh;
