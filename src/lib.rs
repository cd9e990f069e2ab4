//! Span-faithful rendering of a PHP syntax tree back to source text.
//!
//! Every node carries the span the parser recorded for it. Rendering walks
//! the tree in document order with a cursor, and around each node's content
//! emits a newline when the node starts on a later line and spaces up to the
//! node's recorded end column.

/// The syntax tree that the renderer reads.
pub mod ast;
/// The layout of a rendering as mathematical values.
pub mod layout;
/// Properties of every rendering.
pub mod laws;
/// The renderer.
pub mod render;
/// Finding nodes that have no renderer.
pub mod scan;
