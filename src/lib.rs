//! Supervision of a single long-running child server process: the slot that
//! holds its handle between startup and shutdown, and the rules that turn the
//! child's output events into diagnostic log lines.

pub mod drain;
pub mod supervisor;
pub mod text;

pub use drain::{entry_for, Drain, LogEntry, OutputEvent};
pub use supervisor::{stop_line, Supervisor};
pub use text::{exit_code_text, tagged_line, trim_line_end, Source};

