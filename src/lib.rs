//! A tiny dependency-injection library.
//!
//! A data-holder declares which of its fields receive the payloads of which
//! variants of a tagged union ("model" enum). The `codegen` module checks such
//! declarations and renders the dispatch routine that realises [`Injectable`]
//! for the data-holder; [`Injector`] fans values from producers out to targets.
pub mod codegen;
pub mod injected;
pub mod injector;

pub use codegen::{
    expand, inject_attr_index, AttrDecl, EnumMember, Expansion, FieldDecl, FieldFault, GenError, HolderDecl,
};
pub use injected::Injected;
pub use injector::{Injectable, Injector};
