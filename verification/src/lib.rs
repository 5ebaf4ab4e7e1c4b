//! The abstract syntax of a pipeline-oriented query language: a universal
//! `Item` node type with its normalization and typed-extraction operations,
//! and a lossless tree codec, all with verified contracts.

pub mod ast;
pub mod codec;
pub mod render;
