//! A CSS-like styling engine for a terminal UI: stylesheet text is tokenized,
//! parsed into selectors and declarations, ranked by specificity, matched
//! against widget nodes, and folded into one resolved style record per node.
//! Around it sit the plain-value parts of the widget toolkit: geometry,
//! render strips, the compositor, scrolling, focus and widget state.

pub mod geometry;
pub mod text;
pub mod tokenizer;
pub mod model;
pub mod parser;
pub mod scalar;
pub mod styles;
pub mod properties;
pub mod node;
pub mod specificity;
pub mod stylesheet;
pub mod strip;
pub mod compositor;
pub mod snapshot;
pub mod color;
pub mod scroll;
pub mod lifecycle;
pub mod focus;
pub mod spatial;
pub mod input;
pub mod binding;
pub mod widgets;
pub mod text_input;
pub mod app_config;
