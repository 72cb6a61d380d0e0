//! Admission webhook chain of the memory wiki and the instruction-block
//! stripper of the uninstall command.
pub mod admission;
pub mod chain;
pub mod instructions;
pub mod outside;
