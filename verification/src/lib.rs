//! The expression tree of the `.60` language compiler, the passes and rules that
//! work on it, and the decision logic of the run-time event loop and glyph cache.

pub mod conversion;
pub mod diagnostics;
pub mod eventloop;
pub mod expression_tree;
pub mod expression_type;
pub mod focus_item;
pub mod object_tree;
pub mod path;
pub mod text;
pub mod traversal;
pub mod typeregister;
