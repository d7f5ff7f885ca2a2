use vstd::prelude::*;
use vstd::string::*;

use crate::logfile::{LogEntry, log_row, log_row_of};
use crate::protocol::{Command, CommandView, ReaderStatus, Reading, ReadingView, StatusView};
use crate::record::{frame_of, parse_frame, parse_record, record_of, texts};

verus! {

/// Consecutive failed reads that a session survives; one more ends it.
pub const MAX_READ_RETRIES: u32 = 3;

/// Which of the two line formats the device speaks.
#[derive(Clone, Copy, Debug, PartialEq, Eq, Structural)]
pub enum Protocol {
    /// Label sets, then value rows.
    Labelled,
    /// Sensor, board, value and timestamp on every line.
    FixedSchema,
}

/// The outcome of one read from the device.
#[derive(Debug)]
pub enum ReadOutcome {
    /// A whole line, with its terminator.
    Line(String),
    /// Nothing came within the read timeout.
    Timeout,
    /// The read failed, with the error's message.
    Failed(String),
}

pub enum ReadOutcomeView {
    Line(Seq<char>),
    Timeout,
    Failed(Seq<char>),
}

impl View for ReadOutcome {
    type V = ReadOutcomeView;

    open spec fn view(&self) -> ReadOutcomeView {
        match self {
            ReadOutcome::Line(s) => ReadOutcomeView::Line(s@),
            ReadOutcome::Timeout => ReadOutcomeView::Timeout,
            ReadOutcome::Failed(s) => ReadOutcomeView::Failed(s@),
        }
    }
}

/// What the worker's loop does about a command.
#[derive(Debug)]
pub enum CommandAction {
    Nothing,
    /// Flush the log when `flush_log`, send `status`, and end the loop.
    Shutdown { flush_log: bool, status: ReaderStatus },
    /// Open a log file at this path and write the header row.
    OpenLog(String),
    /// Flush and close the log file.
    CloseLog,
}

pub enum CommandActionView {
    Nothing,
    Shutdown { flush_log: bool, status: StatusView },
    OpenLog(Seq<char>),
    CloseLog,
}

impl View for CommandAction {
    type V = CommandActionView;

    open spec fn view(&self) -> CommandActionView {
        match self {
            CommandAction::Nothing => CommandActionView::Nothing,
            CommandAction::Shutdown { flush_log, status } => CommandActionView::Shutdown {
                flush_log: *flush_log,
                status: status@,
            },
            CommandAction::OpenLog(p) => CommandActionView::OpenLog(p@),
            CommandAction::CloseLog => CommandActionView::CloseLog,
        }
    }
}

/// What the worker's loop does about a read.
#[derive(Debug)]
pub enum ReadAction {
    Idle,
    /// Write `log_row` to the log when there is one, then send `reading`.
    Deliver { reading: Reading, log_row: Option<Vec<String>> },
    /// Send the status and end the loop.
    Halt(ReaderStatus),
}

pub enum ReadActionView {
    Idle,
    Deliver { reading: ReadingView, log_row: Option<Seq<Seq<char>>> },
    Halt(StatusView),
}

impl View for ReadAction {
    type V = ReadActionView;

    open spec fn view(&self) -> ReadActionView {
        match self {
            ReadAction::Idle => ReadActionView::Idle,
            ReadAction::Deliver { reading, log_row } => ReadActionView::Deliver {
                reading: reading@,
                log_row: match log_row {
                    Some(r) => Some(texts(r@)),
                    None => None,
                },
            },
            ReadAction::Halt(s) => ReadActionView::Halt(s@),
        }
    }
}

/// The worker's decisions as plain values.
pub struct WorkerState {
    pub protocol: Protocol,
    /// A log file is open.
    pub logging: bool,
    /// Failed reads since the last good one.
    pub read_errors: u32,
    /// The loop has ended.
    pub stopped: bool,
}

/// What a command does to the worker: `Stop` ends it and closes any log;
/// `StopLogging` closes the log; `StartLogging` changes nothing until the
/// file is open.
pub open spec fn command_next(w: WorkerState, c: CommandView) -> WorkerState {
    if w.stopped {
        w
    } else {
        match c {
            CommandView::Stop => WorkerState { stopped: true, logging: false, ..w },
            CommandView::StopLogging => WorkerState { logging: false, ..w },
            CommandView::StartLogging(_) => w,
        }
    }
}

/// What the loop must do about a command. Starting a log while one is open,
/// or stopping it while none is, does nothing.
pub open spec fn command_action(w: WorkerState, c: CommandView) -> CommandActionView {
    if w.stopped {
        CommandActionView::Nothing
    } else {
        match c {
            CommandView::Stop => CommandActionView::Shutdown {
                flush_log: w.logging,
                status: StatusView::Stopped(None),
            },
            CommandView::StopLogging => if w.logging {
                CommandActionView::CloseLog
            } else {
                CommandActionView::Nothing
            },
            CommandView::StartLogging(p) => if w.logging {
                CommandActionView::Nothing
            } else {
                CommandActionView::OpenLog(p)
            },
        }
    }
}

pub open spec fn bump32(n: u32) -> u32 {
    if n < u32::MAX {
        (n + 1) as u32
    } else {
        n
    }
}

pub open spec fn fallback_reason() -> Seq<char> {
    "too many read errors"@
}

/// Why the session ends after the failure with message `msg`.
pub open spec fn halt_reason(msg: Seq<char>) -> Seq<char> {
    if msg.len() > 0 {
        msg
    } else {
        fallback_reason()
    }
}

/// The message for a line that is no frame.
pub open spec fn bad_frame_message(line: Seq<char>) -> Seq<char> {
    "invalid frame: "@ + line
}

/// The worker after a failed read: one more failure in a row, and the end
/// of the loop once there are more than `MAX_READ_RETRIES`.
pub open spec fn failed_next(w: WorkerState) -> WorkerState {
    let n = bump32(w.read_errors);
    WorkerState { read_errors: n, stopped: n > MAX_READ_RETRIES, ..w }
}

/// What the loop does after a failure with message `msg`: nothing, until
/// the count of failures in a row passes `MAX_READ_RETRIES`.
pub open spec fn failed_action(w: WorkerState, msg: Seq<char>) -> ReadActionView {
    if bump32(w.read_errors) > MAX_READ_RETRIES {
        ReadActionView::Halt(StatusView::Stopped(Some(halt_reason(msg))))
    } else {
        ReadActionView::Idle
    }
}

/// What a read does to the worker. A timeout is no failure; a line resets
/// the count of failures, but for a fixed-schema line that is no frame,
/// which counts as one.
pub open spec fn read_next(w: WorkerState, o: ReadOutcomeView) -> WorkerState {
    if w.stopped {
        w
    } else {
        match o {
            ReadOutcomeView::Timeout => w,
            ReadOutcomeView::Failed(_) => failed_next(w),
            ReadOutcomeView::Line(line) => if w.protocol == Protocol::FixedSchema && frame_of(
                line,
            ) is None {
                failed_next(w)
            } else {
                WorkerState { read_errors: 0, ..w }
            },
        }
    }
}

/// What the loop must do about a read made `read_time_ms` after the session
/// began: hand on what the line holds, with its log row while a log is
/// open, or count a failure.
pub open spec fn read_action(w: WorkerState, o: ReadOutcomeView, read_time_ms: i64) -> ReadActionView {
    if w.stopped {
        ReadActionView::Idle
    } else {
        match o {
            ReadOutcomeView::Timeout => ReadActionView::Idle,
            ReadOutcomeView::Failed(msg) => failed_action(w, msg),
            ReadOutcomeView::Line(line) => match w.protocol {
                Protocol::Labelled => ReadActionView::Deliver {
                    reading: ReadingView::Record(record_of(line)),
                    log_row: None,
                },
                Protocol::FixedSchema => match frame_of(line) {
                    Some(f) => ReadActionView::Deliver {
                        reading: ReadingView::Frame(f),
                        log_row: if w.logging {
                            Some(log_row_of(LogEntry { frame: f, read_time_ms }))
                        } else {
                            None
                        },
                    },
                    None => failed_action(w, bad_frame_message(line)),
                },
            },
        }
    }
}

/// The decisions of the worker that owns the device during a session. The
/// loop around it reads, writes the log and talks to the consumer; this
/// says what each of those steps leads to.
pub struct Worker {
    protocol: Protocol,
    logging: bool,
    read_errors: u32,
    stopped: bool,
}

impl View for Worker {
    type V = WorkerState;

    closed spec fn view(&self) -> WorkerState {
        WorkerState {
            protocol: self.protocol,
            logging: self.logging,
            read_errors: self.read_errors,
            stopped: self.stopped,
        }
    }
}

impl Worker {
    /// A worker at the start of a session, and the status it reports first.
    pub fn start(protocol: Protocol) -> (r: (Worker, ReaderStatus))
        ensures
            r.0@ == (WorkerState { protocol, logging: false, read_errors: 0, stopped: false }),
            r.1@ == StatusView::Running,
    {
        (Worker { protocol, logging: false, read_errors: 0, stopped: false }, ReaderStatus::Running)
    }

    pub fn protocol(&self) -> (r: Protocol)
        ensures
            r == self@.protocol,
    {
        self.protocol
    }

    /// Whether a log file is open.
    pub fn logging(&self) -> (r: bool)
        ensures
            r == self@.logging,
    {
        self.logging
    }

    /// Whether the loop has ended.
    pub fn stopped(&self) -> (r: bool)
        ensures
            r == self@.stopped,
    {
        self.stopped
    }

    /// Decides about one command.
    pub fn on_command(&mut self, cmd: Command) -> (r: CommandAction)
        ensures
            final(self)@ == command_next(old(self)@, cmd@),
            r@ == command_action(old(self)@, cmd@),
    {
        if self.stopped {
            return CommandAction::Nothing;
        }
        match cmd {
            Command::Stop => {
                let flush_log = self.logging;
                self.stopped = true;
                self.logging = false;
                CommandAction::Shutdown { flush_log, status: ReaderStatus::Stopped(None) }
            },
            Command::StopLogging => {
                if self.logging {
                    self.logging = false;
                    CommandAction::CloseLog
                } else {
                    CommandAction::Nothing
                }
            },
            Command::StartLogging(path) => {
                if self.logging {
                    CommandAction::Nothing
                } else {
                    CommandAction::OpenLog(path)
                }
            },
        }
    }

    /// Takes the outcome of opening the log file and writing its header;
    /// returns the status to report.
    pub fn log_opened(&mut self, opened: Result<(), String>) -> (r: ReaderStatus)
        ensures
            opened is Ok ==> final(self)@ == (WorkerState { logging: true, ..old(self)@ }),
            opened is Ok ==> r@ == StatusView::Logging,
            opened matches Err(e) ==> final(self)@ == old(self)@ && r@ == StatusView::LogErr(e@),
    {
        match opened {
            Ok(()) => {
                self.logging = true;
                ReaderStatus::Logging
            },
            Err(e) => ReaderStatus::LogErr(e),
        }
    }

    /// Takes the outcome of flushing the log file when it was closed;
    /// returns the status to report.
    pub fn log_closed(&self, flushed: Result<(), String>) -> (r: ReaderStatus)
        ensures
            flushed is Ok ==> r@ == StatusView::Running,
            flushed matches Err(e) ==> r@ == StatusView::LogErr(e@),
    {
        match flushed {
            Ok(()) => ReaderStatus::Running,
            Err(e) => ReaderStatus::LogErr(e),
        }
    }

    /// Takes the outcome of writing a row to the log. A failure closes the
    /// log, keeps the session, and gives the status to report.
    pub fn log_written(&mut self, written: Result<(), String>) -> (r: Option<ReaderStatus>)
        ensures
            written is Ok ==> final(self)@ == old(self)@ && r is None,
            written is Err ==> final(self)@ == (WorkerState { logging: false, ..old(self)@ }),
            written matches Err(e) ==> (r matches Some(s) && s@ == StatusView::LogErr(e@)),
    {
        match written {
            Ok(()) => None,
            Err(e) => {
                self.logging = false;
                Some(ReaderStatus::LogErr(e))
            },
        }
    }

    fn fail(&mut self, msg: String) -> (r: ReadAction)
        requires
            !old(self).stopped,
        ensures
            final(self)@ == failed_next(old(self)@),
            r@ == failed_action(old(self)@, msg@),
    {
        if self.read_errors < u32::MAX {
            self.read_errors = self.read_errors + 1;
        }
        if self.read_errors > MAX_READ_RETRIES {
            self.stopped = true;
            let reason = if !msg.as_str().is_empty() {
                proof {
                    assert(msg@.len() > 0);
                }
                msg
            } else {
                String::from_str("too many read errors")
            };
            ReadAction::Halt(ReaderStatus::Stopped(Some(reason)))
        } else {
            ReadAction::Idle
        }
    }

    /// Decides about one read, made `read_time_ms` after the session began.
    pub fn on_read(&mut self, outcome: ReadOutcome, read_time_ms: i64) -> (r: ReadAction)
        ensures
            final(self)@ == read_next(old(self)@, outcome@),
            r@ == read_action(old(self)@, outcome@, read_time_ms),
    {
        if self.stopped {
            return ReadAction::Idle;
        }
        match outcome {
            ReadOutcome::Timeout => ReadAction::Idle,
            ReadOutcome::Failed(msg) => self.fail(msg),
            ReadOutcome::Line(line) => match self.protocol {
                Protocol::Labelled => {
                    self.read_errors = 0;
                    ReadAction::Deliver {
                        reading: Reading::Record(parse_record(line.as_str())),
                        log_row: None,
                    }
                },
                Protocol::FixedSchema => match parse_frame(line.as_str()) {
                    Some(f) => {
                        self.read_errors = 0;
                        let row = if self.logging {
                            Some(log_row(&LogEntry { frame: f, read_time_ms }))
                        } else {
                            None
                        };
                        ReadAction::Deliver { reading: Reading::Frame(f), log_row: row }
                    },
                    None => {
                        let msg = String::from_str("invalid frame: ").concat(line.as_str());
                        self.fail(msg)
                    },
                },
            },
        }
    }
}

/// Read timeouts are no failures: they change nothing and do nothing.
pub proof fn lemma_timeout_is_no_failure(w: WorkerState, read_time_ms: i64)
    ensures
        read_next(w, ReadOutcomeView::Timeout) == w,
        read_action(w, ReadOutcomeView::Timeout, read_time_ms) == ReadActionView::Idle,
{
}

/// From a worker with no failures in a row, three failed reads in a row do
/// nothing and leave it running; a fourth ends it with `Stopped` and a
/// reason that is not empty.
pub proof fn lemma_fourth_failure_stops(
    w: WorkerState,
    m1: Seq<char>,
    m2: Seq<char>,
    m3: Seq<char>,
    m4: Seq<char>,
    t: i64,
)
    requires
        !w.stopped,
        w.read_errors == 0,
    ensures
        ({
            let w1 = read_next(w, ReadOutcomeView::Failed(m1));
            let w2 = read_next(w1, ReadOutcomeView::Failed(m2));
            let w3 = read_next(w2, ReadOutcomeView::Failed(m3));
            &&& read_action(w, ReadOutcomeView::Failed(m1), t) == ReadActionView::Idle
            &&& read_action(w1, ReadOutcomeView::Failed(m2), t) == ReadActionView::Idle
            &&& read_action(w2, ReadOutcomeView::Failed(m3), t) == ReadActionView::Idle
            &&& !w3.stopped
            &&& read_next(w3, ReadOutcomeView::Failed(m4)).stopped
            &&& read_action(w3, ReadOutcomeView::Failed(m4), t) matches ReadActionView::Halt(
                StatusView::Stopped(Some(reason)),
            ) && reason.len() > 0
        }),
{
    reveal_strlit("too many read errors");
}

} // verus!
