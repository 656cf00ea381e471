pub mod ast;
pub mod batch;
pub mod bodies;
pub mod clauses;
pub mod closure;
pub mod code;
pub mod declarations;
pub mod directives;
pub mod entries;
pub mod files;
pub mod goals;
pub mod growth;
pub mod images;
pub mod intake;
pub mod jumps;
pub mod laws;
pub mod predicates;
pub mod program;
pub mod reader;
pub mod relation;
pub mod scan;
pub mod shapes;
pub mod translation;
pub mod weight;
