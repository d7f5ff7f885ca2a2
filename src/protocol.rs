use vstd::prelude::*;
use vstd::string::*;

use crate::record::{Frame, RecordView, SerialRecord};

verus! {

/// What the consumer asks of the worker.
#[derive(Debug)]
pub enum Command {
    Stop,
    StartLogging(String),
    StopLogging,
}

pub enum CommandView {
    Stop,
    StartLogging(Seq<char>),
    StopLogging,
}

impl View for Command {
    type V = CommandView;

    open spec fn view(&self) -> CommandView {
        match self {
            Command::Stop => CommandView::Stop,
            Command::StartLogging(p) => CommandView::StartLogging(p@),
            Command::StopLogging => CommandView::StopLogging,
        }
    }
}

/// What the worker reports of itself. `Stopped` ends the session.
#[derive(Debug)]
pub enum ReaderStatus {
    LogErr(String),
    Running,
    Logging,
    Stopped(Option<String>),
}

pub enum StatusView {
    LogErr(Seq<char>),
    Running,
    Logging,
    Stopped(Option<Seq<char>>),
}

impl View for ReaderStatus {
    type V = StatusView;

    open spec fn view(&self) -> StatusView {
        match self {
            ReaderStatus::LogErr(e) => StatusView::LogErr(e@),
            ReaderStatus::Running => StatusView::Running,
            ReaderStatus::Logging => StatusView::Logging,
            ReaderStatus::Stopped(None) => StatusView::Stopped(None),
            ReaderStatus::Stopped(Some(r)) => StatusView::Stopped(Some(r@)),
        }
    }
}

impl ReaderStatus {
    pub fn duplicate(&self) -> (r: ReaderStatus)
        ensures
            r@ == self@,
    {
        match self {
            ReaderStatus::LogErr(e) => ReaderStatus::LogErr(e.clone()),
            ReaderStatus::Running => ReaderStatus::Running,
            ReaderStatus::Logging => ReaderStatus::Logging,
            ReaderStatus::Stopped(None) => ReaderStatus::Stopped(None),
            ReaderStatus::Stopped(Some(r)) => ReaderStatus::Stopped(Some(r.clone())),
        }
    }
}

/// What the worker hands the consumer for each line it read.
#[derive(Debug)]
pub enum Reading {
    Record(SerialRecord),
    Frame(Frame),
}

pub enum ReadingView {
    Record(RecordView),
    Frame(Frame),
}

impl View for Reading {
    type V = ReadingView;

    open spec fn view(&self) -> ReadingView {
        match self {
            Reading::Record(r) => ReadingView::Record(r@),
            Reading::Frame(f) => ReadingView::Frame(*f),
        }
    }
}

/// How a channel stood once it had been drained: still open, or dropped by
/// the other side.
#[derive(Clone, Copy, Debug, PartialEq, Eq, Structural)]
pub enum ChannelEnd {
    Open,
    Disconnected,
}

pub open spec fn readings_view(s: Seq<Reading>) -> Seq<ReadingView> {
    s.map_values(|x: Reading| x@)
}

pub open spec fn statuses_view(s: Seq<ReaderStatus>) -> Seq<StatusView> {
    s.map_values(|x: ReaderStatus| x@)
}

} // verus!
