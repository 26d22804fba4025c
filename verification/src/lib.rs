//! A verified parser for the Hurl file format: HTTP requests, the responses
//! they expect, and the comments and whitespace around them.

pub mod asserts;
pub mod ast;
pub mod base64;
pub mod bytes;
pub mod error;
pub mod expr;
pub mod json;
pub mod keyvalue;
pub mod parsers;
pub mod primitives;
pub mod properties;
pub mod reader;
pub mod sections;
pub mod text;
