pub mod graph;
pub mod module;
pub mod provider;
