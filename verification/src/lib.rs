//! A single-pass bytecode compiler and a stack-based virtual machine for a
//! small dynamically typed scripting language with closures and classes.
pub mod compiler;
pub mod laws;
pub mod vm;
