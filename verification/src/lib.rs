//! Code generation for a small stack-based instruction set, with an x86-64
//! backend that emits flat-assembler (fasm) source text.

pub mod backend;
