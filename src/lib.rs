//! Reading a line-oriented telemetry stream from a serial device: line
//! classification, the worker's decisions, the consumer's polling state and
//! the samples it gathers by source, and the rows of the log file.

pub mod logfile;
pub mod protocol;
pub mod reader;
pub mod record;
pub mod session;
pub mod store;
pub mod text;
pub mod worker;
