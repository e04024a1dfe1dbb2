//! A single-pass compiler and stack virtual machine for a small dynamically
//! typed scripting language.
//!
//! Source text is scanned into tokens on demand, compiled directly into
//! stack-machine bytecode by a precedence-climbing parser (no syntax tree is
//! ever built), and executed by a fetch-decode-execute loop with type-checked
//! arithmetic and a global-variable table.  Every component carries a
//! mathematical model: the scanner, the compiler and the machine are each
//! proved equal to a specification-level function of their input, so the
//! whole pipeline is deterministic by theorem, not by inspection.

pub mod chunk;
pub mod compiler;
pub mod object;
pub mod parser;
pub mod scanner;
pub mod value;
pub mod vm;
