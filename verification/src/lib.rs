//! A tiny stack-based shading language: each program is evaluated once per
//! output pixel and must leave a color on top of the value stack.
//!
//! The library holds the verified core: the value and type model, the token
//! parser, the operation table with its exact stack semantics, and the
//! `interpret` driver that turns program text into a color.

pub mod data;
pub mod error;
pub mod laws;
pub mod machine;
pub mod op;
pub mod parser;
pub mod texture;
