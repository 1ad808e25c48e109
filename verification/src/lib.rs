//! A single-pass bytecode compiler and a stack-based virtual machine for Lox.
//!
//! Numbers are IEEE 754 doubles, held by their 64-bit encoding. The library
//! compares, negates and tests them on that encoding; whatever needs
//! floating-point arithmetic or text (literals, `+ - * /`, printing a number,
//! the clock) is handed to the embedding program as a request.

pub mod chunk;
pub mod compiler;
pub mod debug;
pub mod object;
pub mod scanner;
pub mod text;
pub mod value;
pub mod vm;
