//! A harness for test runners of one's own: it decides which tests of a
//! catalog run, takes their outcomes, renders the report that the standard
//! test harness would print, and keeps the tally.
//!
//! The library evaluates tests and renders text; it does not write. The
//! pieces of the report are values that the caller writes to a destination
//! of its choice. `run_tests` takes a catalog through a whole run on the
//! calling thread. `Run` does it step by step, for a caller that writes the
//! report as it comes about or evaluates the tests on several threads.

pub mod args;
pub mod arrival;
pub mod engine;
pub mod layout;
pub mod outcome;
pub mod printer;
pub mod select;
pub mod text;

pub use crate::args::{Arguments, ColorSetting, Destination, FormatSetting};
pub use crate::engine::{run_tests, Begin, Report, Run};
pub use crate::layout::{Color, Layout, Piece};
pub use crate::outcome::{Conclusion, Outcome, Test, Ticket};
pub use crate::printer::{ConfigError, Printer};
pub use crate::select::Selection;
