//! Builds a tagged union from a list of existing types and writes, for every
//! interface the union is asked to implement, the dispatch that forwards each
//! method to the variant that is active.
//!
//! An interface declaration is captured into a [`registry::Registry`] under
//! its name. A union declaration is read by
//! [`declaration::TypeWrapInput::parse`], and [`generate::enum_wrap2`] turns
//! it, with the interfaces it finds in the registry, into the union, one
//! dispatch block for each interface and one conversion for each variant;
//! [`generate::GeneratedCode::to_text`] writes that out.

pub mod tokens;
pub mod text;
pub mod declaration;
pub mod interface;
pub mod registry;
pub mod generate;
pub mod emit;
pub mod parse;
