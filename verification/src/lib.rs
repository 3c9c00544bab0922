//! Synthesis of a freestanding WebAssembly runner: assembly of the generated
//! C translation unit from ordered fragments, and the exact command line of
//! the compiler that turns it into a module.

pub mod compile;
pub mod runner;
pub mod stage;
pub mod template;
pub mod text;
