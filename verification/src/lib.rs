//! Swatchbook: a Markdown-powered style binder.
pub mod text;
pub mod named_colors;
pub mod token;
pub mod parser;
pub mod document;
pub mod renderer;
pub mod session;
pub mod highlight;
