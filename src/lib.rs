//! Evaluation of JSONPath-like selectors over an in-memory JSON document tree.
//!
//! A path expression is turned into a tree of selectors bound to the document
//! root; applying it to a node yields references to the selected sub-nodes,
//! in document order, without copying any of them.

pub mod document;
pub mod selector;
pub mod expression;
pub mod laws;
