//! Task composition and supervision engine for a declarative task runner.
//!
//! A config file maps task names to tasks (script lines plus metadata).
//! This library resolves one task, composes its body into an executable
//! script (inlining references to other tasks, with cycle detection),
//! plans the temp-script lifecycle, and drives the supervision state
//! machines for once / periodic / watch execution.  All I/O (argument
//! parsing, config loading, file writes, process spawning, signal and
//! filesystem-watch registration) lives outside the library and hands in
//! plain values.

pub mod commands;
pub mod compose;
pub mod execute;
pub mod prepare;
pub mod script;
pub mod text;
pub mod utils;
