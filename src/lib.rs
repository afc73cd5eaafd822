//! Translates a build execution graph into declarative build modules: the graph is parsed
//! into edges, each requested artifact's closure of flags, sources and libraries is
//! resolved, a project's filters and extension hook shape one module per artifact, and the
//! package is emitted as text.

pub mod emit;
pub mod graph;
pub mod mesa;
pub mod module;
pub mod parse;
pub mod project;
pub mod synth;
pub mod text;
