//! Python front end of a semantic-diff plugin: it turns the concrete syntax
//! tree of a Python file into a pruned semantic tree, annotated with
//! structural facts about function and class definitions.

pub mod text;
pub mod cst;
pub mod vocab;
pub mod facts;
pub mod semantic;
pub mod syntax;
pub mod plugin;
pub mod laws;
