//! A translator from a class-based, optionally typed scripting language to
//! a statically typed, ownership-based systems language, together with the
//! dependency-injection graph resolver that orders component start-up.
//!
//! The library works on plain parsed trees and yields plain text: reading
//! source files, writing output and running the generated programs belong
//! to the shell around it.

pub mod analyzer;
pub mod ast;
pub mod cats_service;
pub mod class;
pub mod codegen;
pub mod common;
pub mod di;
pub mod func;
pub mod graphs;
pub mod interface;
pub mod module;
mod names;
pub mod orchestrator;
pub mod stdlib;
pub mod text;
pub mod type_mapper;

pub use names::to_pascal_case;
pub use names::to_snake_case;
