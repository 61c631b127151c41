//! Structured, live-updating status output for command-line programs.
//!
//! Callers register messages and running jobs with an [`OutputState`]; the
//! engine keeps them in insertion order, decides when a rendering backend is
//! invoked, and drops entries that have been shown in a final state.
pub mod backend;
pub mod console;
pub mod laws;
pub mod output;
pub mod output_log;
pub mod output_state;
pub mod pipe;
pub mod rawconsole;
pub mod scheduler;
pub mod text;
pub mod ticksequence;

pub use backend::{open_backend, Backend, BackendKind};
pub use console::Console;
pub use output::OutputOptions;
pub use output_log::{LogView, OutputLogInternal, OutputLogState};
pub use output_state::{EngineView, OutputState};
pub use pipe::PipeOutput;
pub use rawconsole::RawConsole;
pub use scheduler::{Scheduler, SchedulerAction, SchedulerEvent};
