//! A register-machine simulator: an assembler for a small line-oriented
//! source language and a single-step interpreter for the compiled program.
pub mod text;
pub mod program;
pub mod machine;
pub mod assembler;
pub mod laws;
