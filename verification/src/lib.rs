//! Front end of a text-template language: turns template source text into a
//! position-annotated syntax tree, or fails with a located diagnostic.

pub mod parser;
