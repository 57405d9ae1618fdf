//! Renders a tree of typed document blocks as Markdown.

pub mod assembler;
pub mod ast;
pub mod block;
pub mod decode;
pub mod json;
pub mod page;
pub mod rich_text;
pub mod text;
