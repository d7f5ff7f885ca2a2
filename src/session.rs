use vstd::prelude::*;

use crate::protocol::{ChannelEnd, CommandView, ReadingView, StatusView};
use crate::reader::{
    POLL_INTERVAL_MS, ReaderState, apply_status, apply_statuses, fold_all, fold_reading, poll,
};
use crate::worker::{
    CommandActionView, ReadActionView, ReadOutcomeView, WorkerState, command_action, command_next,
    read_action,
};

verus! {

/// Folding readings changes neither the session nor its status.
proof fn lemma_fold_all_keeps_status(r: ReaderState, xs: Seq<ReadingView>)
    ensures
        fold_all(r, xs).active == r.active,
        fold_all(r, xs).status == r.status,
    decreases xs.len(),
{
    if xs.len() > 0 {
        lemma_fold_all_keeps_status(fold_reading(r, xs[0]), xs.drop_first());
    }
}

/// An open session that takes on statuses ending in a `Stopped` is closed,
/// with a `Stopped` status.
proof fn lemma_statuses_ending_in_stop(r: ReaderState, st: Seq<StatusView>)
    requires
        r.active,
        st.len() > 0,
        st.last() is Stopped,
    ensures
        !apply_statuses(r, st).active,
        apply_statuses(r, st).status is Stopped,
    decreases st.len(),
{
    let r1 = apply_status(r, st[0]);
    assert(apply_statuses(r, st) == apply_statuses(r1, st.drop_first()));
    if st[0] is Stopped {
        assert(apply_statuses(r1, st.drop_first()) == r1);
    } else {
        assert(st.len() > 1);
        assert(st.drop_first().last() == st.last());
        lemma_statuses_ending_in_stop(r1, st.drop_first());
    }
}

/// A session that has ended takes nothing in: a poll changes nothing and
/// asks for no further poll.
pub proof fn lemma_ended_session_takes_nothing(
    r: ReaderState,
    frames: Seq<ReadingView>,
    frames_end: ChannelEnd,
    statuses: Seq<StatusView>,
    status_end: ChannelEnd,
)
    requires
        !r.active,
    ensures
        poll(r, frames, frames_end, statuses, status_end) == (r, None::<u64>),
{
}

/// A worker told to `Stop` shuts down and reports `Stopped`, and delivers
/// nothing after. A poll that drains that report, after whatever came
/// before it, ends the session: the status is `Stopped`, no further poll
/// is asked for, and later polls take no reading in.
pub proof fn lemma_stop_ends_session(
    w: WorkerState,
    r: ReaderState,
    frames: Seq<ReadingView>,
    frames_end: ChannelEnd,
    before: Seq<StatusView>,
    status_end: ChannelEnd,
    later: ReadOutcomeView,
    t: i64,
)
    requires
        !w.stopped,
        r.active,
    ensures
        command_action(w, CommandView::Stop) == (CommandActionView::Shutdown {
            flush_log: w.logging,
            status: StatusView::Stopped(None),
        }),
        command_next(w, CommandView::Stop).stopped,
        read_action(command_next(w, CommandView::Stop), later, t) == ReadActionView::Idle,
        ({
            let (r2, next) = poll(
                r,
                frames,
                frames_end,
                before.push(StatusView::Stopped(None)),
                status_end,
            );
            &&& r2.status is Stopped
            &&& !r2.active
            &&& next is None
        }),
{
    let st = before.push(StatusView::Stopped(None));
    let r1 = fold_all(r, frames);
    lemma_fold_all_keeps_status(r, frames);
    lemma_statuses_ending_in_stop(r1, st);
}

/// Asking an open session to log where no file can be opened yields
/// `LogErr` and leaves the session open: the worker goes on, and the
/// consumer, once it has taken that status in, still counts it as running
/// and polls on.
pub proof fn lemma_log_failure_keeps_session(
    w: WorkerState,
    r: ReaderState,
    path: Seq<char>,
    e: Seq<char>,
)
    requires
        !w.stopped,
        !w.logging,
        r.active,
    ensures
        command_action(w, CommandView::StartLogging(path)) == CommandActionView::OpenLog(path),
        command_next(w, CommandView::StartLogging(path)) == w,
        ({
            let (r2, next) = poll(
                r,
                Seq::empty(),
                ChannelEnd::Open,
                seq![StatusView::LogErr(e)],
                ChannelEnd::Open,
            );
            &&& r2.active
            &&& r2.status == StatusView::LogErr(e)
            &&& !(r2.status is Stopped)
            &&& next == Some(POLL_INTERVAL_MS)
        }),
{
    let st = seq![StatusView::LogErr(e)];
    assert(fold_all(r, Seq::empty()) == r);
    assert(st.drop_first() =~= Seq::<StatusView>::empty());
    let r1 = apply_status(r, st[0]);
    assert(apply_statuses(r1, st.drop_first()) == r1);
    assert(apply_statuses(r, st) == r1);
}

} // verus!
