use vstd::prelude::*;
use vstd::string::*;

use crate::protocol::{
    ChannelEnd, Command, CommandView, ReaderStatus, Reading, ReadingView, StatusView,
    readings_view, statuses_view,
};
use crate::record::{RecordView, SerialRecord, texts};
use crate::store::{
    KeyView, SeriesKey, SeriesStore, StoreView, has_key, keys_distinct, lemma_pushed_series,
    pushed, series_of,
};

verus! {

/// Milliseconds after which a consumer with an open session polls again.
pub const POLL_INTERVAL_MS: u64 = 100;

/// The consumer's side as plain values.
pub struct ReaderState {
    /// A session is open: a worker runs and its channels are held.
    pub active: bool,
    pub status: StatusView,
    pub store: StoreView,
    /// The labels of the last label set, if one came.
    pub labels: Option<Seq<Seq<char>>>,
    /// Lines that were neither labels nor values.
    pub unclassified: u64,
    /// Value rows dropped for want of a matching label set.
    pub dropped_rows: u64,
}

pub open spec fn bump(n: u64) -> u64 {
    if n < u64::MAX {
        (n + 1) as u64
    } else {
        n
    }
}

pub open spec fn disconnect_reason() -> Seq<char> {
    "Reader disconnected unexpectedly"@
}

/// `s` with one sample for each of the first `n` labels appended: time
/// `row[0]`, and for label `i` the value `row[i + 1]`.
pub open spec fn row_pushed(s: StoreView, labels: Seq<Seq<char>>, row: Seq<i64>, n: nat) -> StoreView
    decreases n,
{
    if n == 0 {
        s
    } else {
        pushed(
            row_pushed(s, labels, row, (n - 1) as nat),
            KeyView::Label(labels[n - 1]),
            (row[0], row[n as int]),
        )
    }
}

/// Folds one reading into the consumer's state. A label set replaces the
/// labels and clears every series; a value row whose length is one more
/// than the labels' adds a sample to each label's series, else it is
/// dropped; a frame adds a sample to the series of its board and sensor.
pub open spec fn fold_reading(r: ReaderState, x: ReadingView) -> ReaderState {
    match x {
        ReadingView::Frame(f) => ReaderState {
            store: pushed(
                r.store,
                KeyView::Sensor(f.board_id, f.sensor_id),
                (f.timestamp as i64, f.value as i64),
            ),
            ..r
        },
        ReadingView::Record(RecordView::LabelSet(ls)) => ReaderState {
            store: Seq::empty(),
            labels: Some(ls),
            ..r
        },
        ReadingView::Record(RecordView::ValueRow(row)) => match r.labels {
            Some(ls) => if row.len() == ls.len() + 1 {
                ReaderState { store: row_pushed(r.store, ls, row, ls.len()), ..r }
            } else {
                ReaderState { dropped_rows: bump(r.dropped_rows), ..r }
            },
            None => ReaderState { dropped_rows: bump(r.dropped_rows), ..r },
        },
        ReadingView::Record(RecordView::Unclassified(_)) => ReaderState {
            unclassified: bump(r.unclassified),
            ..r
        },
    }
}

/// Folds the readings in order.
pub open spec fn fold_all(r: ReaderState, xs: Seq<ReadingView>) -> ReaderState
    decreases xs.len(),
{
    if xs.len() == 0 {
        r
    } else {
        fold_all(fold_reading(r, xs[0]), xs.drop_first())
    }
}

/// Takes on one status from the worker; `Stopped` closes the session.
pub open spec fn apply_status(r: ReaderState, s: StatusView) -> ReaderState {
    ReaderState { status: s, active: r.active && !(s is Stopped), ..r }
}

/// Takes on the statuses in order, up to the first that closes the session.
pub open spec fn apply_statuses(r: ReaderState, st: Seq<StatusView>) -> ReaderState
    decreases st.len(),
{
    if st.len() == 0 || !r.active {
        r
    } else {
        apply_statuses(apply_status(r, st[0]), st.drop_first())
    }
}

/// One poll of an open session: fold every reading drained from the frame
/// channel, then the statuses drained from the status channel. A session
/// that a status closed, or whose channel was dropped, ends with no poll
/// interval; else the next poll is due after `POLL_INTERVAL_MS`. Without a
/// session nothing changes.
pub open spec fn poll(
    r: ReaderState,
    frames: Seq<ReadingView>,
    frames_end: ChannelEnd,
    statuses: Seq<StatusView>,
    status_end: ChannelEnd,
) -> (ReaderState, Option<u64>) {
    if !r.active {
        (r, None)
    } else {
        let r2 = apply_statuses(fold_all(r, frames), statuses);
        if !r2.active {
            (r2, None)
        } else if frames_end == ChannelEnd::Disconnected || status_end
            == ChannelEnd::Disconnected {
            (
                ReaderState {
                    status: StatusView::Stopped(Some(disconnect_reason())),
                    active: false,
                    ..r2
                },
                None,
            )
        } else {
            (r2, Some(POLL_INTERVAL_MS))
        }
    }
}

/// The status as the consumer shows it.
pub open spec fn status_text(s: StatusView) -> Seq<char> {
    match s {
        StatusView::LogErr(e) => e,
        StatusView::Running => "Running"@,
        StatusView::Logging => "Logging"@,
        StatusView::Stopped(Some(reason)) => "Stopped ("@ + reason + ")"@,
        StatusView::Stopped(None) => "Stopped"@,
    }
}

/// The consumer's side of a session: the current status, the samples
/// gathered so far, and whether a worker is running.
pub struct Reader {
    active: bool,
    status: ReaderStatus,
    store: SeriesStore,
    labels: Option<Vec<String>>,
    unclassified: u64,
    dropped_rows: u64,
}

impl View for Reader {
    type V = ReaderState;

    closed spec fn view(&self) -> ReaderState {
        ReaderState {
            active: self.active,
            status: self.status@,
            store: self.store@,
            labels: match self.labels {
                Some(l) => Some(texts(l@)),
                None => None,
            },
            unclassified: self.unclassified,
            dropped_rows: self.dropped_rows,
        }
    }
}

fn copy_strings(v: &Vec<String>) -> (r: Vec<String>)
    ensures
        texts(r@) == texts(v@),
{
    let mut r: Vec<String> = Vec::new();
    for i in 0..v.len()
        invariant
            r@.len() == i,
            forall|j: int| 0 <= j < i ==> #[trigger] r@[j]@ == v@[j]@,
    {
        r.push(v[i].clone());
    }
    assert(texts(r@) =~= texts(v@));
    r
}

impl Reader {
    pub closed spec fn wf(&self) -> bool {
        self.store.wf()
    }

    /// A reader with no session, status `Stopped` without a reason, and no
    /// samples.
    pub fn new() -> (r: Reader)
        ensures
            r.wf(),
            !r@.active,
            r@.status == StatusView::Stopped(None),
            r@.store == Seq::<(KeyView, Seq<(i64, i64)>)>::empty(),
            r@.labels is None,
            r@.unclassified == 0,
            r@.dropped_rows == 0,
    {
        Reader {
            active: false,
            status: ReaderStatus::Stopped(None),
            store: SeriesStore::new(),
            labels: None,
            unclassified: 0,
            dropped_rows: 0,
        }
    }

    /// Opens a session with the outcome of opening the device. Without a
    /// session, success opens one and a failure sets `Stopped` with its
    /// message; with one, nothing changes. Returns whether a session was
    /// opened, that is whether a worker must now be started.
    pub fn start_reading(&mut self, opened: Result<(), String>) -> (started: bool)
        requires
            old(self).wf(),
        ensures
            final(self).wf(),
            started == (!old(self)@.active && opened is Ok),
            old(self)@.active ==> final(self)@ == old(self)@,
            !old(self)@.active && opened is Ok ==> final(self)@ == (ReaderState {
                active: true,
                ..old(self)@
            }),
            !old(self)@.active ==> (opened matches Err(e) ==> final(self)@ == (ReaderState {
                status: StatusView::Stopped(Some(e@)),
                ..old(self)@
            })),
    {
        if self.active {
            return false;
        }
        match opened {
            Ok(()) => {
                self.active = true;
                true
            },
            Err(e) => {
                self.status = ReaderStatus::Stopped(Some(e));
                false
            },
        }
    }

    /// The command that asks the worker to stop, when a session is open.
    pub fn stop_reading(&self) -> (r: Option<Command>)
        ensures
            r is Some == self@.active,
            r matches Some(c) ==> c@ == CommandView::Stop,
    {
        if self.active {
            Some(Command::Stop)
        } else {
            None
        }
    }

    /// The command that asks the worker to log to `path`, when a session is
    /// open.
    pub fn start_logging(&self, path: String) -> (r: Option<Command>)
        ensures
            r is Some == self@.active,
            r matches Some(c) ==> c@ == CommandView::StartLogging(path@),
    {
        if self.active {
            Some(Command::StartLogging(path))
        } else {
            None
        }
    }

    /// The command that asks the worker to stop logging, when a session is
    /// open.
    pub fn stop_logging(&self) -> (r: Option<Command>)
        ensures
            r is Some == self@.active,
            r matches Some(c) ==> c@ == CommandView::StopLogging,
    {
        if self.active {
            Some(Command::StopLogging)
        } else {
            None
        }
    }

    /// Whether the status is anything but `Stopped`.
    pub fn running(&self) -> (r: bool)
        ensures
            r == !(self@.status is Stopped),
    {
        !matches!(self.status, ReaderStatus::Stopped(_))
    }

    /// Whether the status is `Logging`.
    pub fn logging(&self) -> (r: bool)
        ensures
            r == (self@.status is Logging),
    {
        matches!(self.status, ReaderStatus::Logging)
    }

    /// Whether a session is open.
    pub fn session_active(&self) -> (r: bool)
        ensures
            r == self@.active,
    {
        self.active
    }

    /// The status as text.
    pub fn reader_status(&self) -> (r: String)
        ensures
            r@ == status_text(self@.status),
    {
        match &self.status {
            ReaderStatus::LogErr(e) => e.clone(),
            ReaderStatus::Running => String::from_str("Running"),
            ReaderStatus::Logging => String::from_str("Logging"),
            ReaderStatus::Stopped(Some(reason)) => {
                let s = String::from_str("Stopped (");
                let s = s.concat(reason.as_str());
                s.concat(")")
            },
            ReaderStatus::Stopped(None) => String::from_str("Stopped"),
        }
    }

    /// The samples gathered so far.
    pub fn data(&self) -> (r: &SeriesStore)
        requires
            self.wf(),
        ensures
            r@ == self@.store,
            r.wf(),
    {
        &self.store
    }

    /// Drops every sample.
    pub fn clear_data(&mut self)
        requires
            old(self).wf(),
        ensures
            final(self).wf(),
            final(self)@ == (ReaderState { store: Seq::empty(), ..old(self)@ }),
    {
        self.store.clear();
    }

    /// Lines seen that were neither labels nor values.
    pub fn unclassified_lines(&self) -> (r: u64)
        ensures
            r == self@.unclassified,
    {
        self.unclassified
    }

    /// Value rows dropped for want of a matching label set.
    pub fn dropped_rows(&self) -> (r: u64)
        ensures
            r == self@.dropped_rows,
    {
        self.dropped_rows
    }

    /// Folds one reading into the series.
    pub fn fold(&mut self, x: &Reading)
        requires
            old(self).wf(),
        ensures
            final(self).wf(),
            final(self)@ == fold_reading(old(self)@, x@),
    {
        match x {
            Reading::Frame(f) => {
                self.store.push_point(
                    SeriesKey::Sensor { board_id: f.board_id, sensor_id: f.sensor_id },
                    f.timestamp as i64,
                    f.value as i64,
                );
                assert(self@ == fold_reading(old(self)@, x@));
            },
            Reading::Record(SerialRecord::LabelSet(ls)) => {
                self.store.clear();
                self.labels = Some(copy_strings(ls));
                assert(self@ == fold_reading(old(self)@, x@));
            },
            Reading::Record(SerialRecord::ValueRow(row)) => {
                let fits = match &self.labels {
                    Some(ls) => row.len() > 0 && row.len() - 1 == ls.len(),
                    None => false,
                };
                if !fits {
                    if self.dropped_rows < u64::MAX {
                        self.dropped_rows = self.dropped_rows + 1;
                    }
                    assert(self@ == fold_reading(old(self)@, x@));
                    return;
                }
                let ls = match &self.labels {
                    Some(ls) => ls,
                    None => {
                        return;
                    },
                };
                let ghost s0 = self.store@;
                let ghost lv = texts(ls@);
                for i in 0..ls.len()
                    invariant
                        self.store.wf(),
                        self.active == old(self).active,
                        self.status == old(self).status,
                        self.labels == old(self).labels,
                        self.unclassified == old(self).unclassified,
                        self.dropped_rows == old(self).dropped_rows,
                        self.labels == Some(*ls),
                        s0 == old(self).store@,
                        lv == texts(ls@),
                        row@.len() == ls@.len() + 1,
                        self.store@ == row_pushed(s0, lv, row@, i as nat),
                {
                    let key = SeriesKey::Label(ls[i].clone());
                    assert(key@ == KeyView::Label(lv[i as int]));
                    self.store.push_point(key, row[0], row[i + 1]);
                }
                assert(self@ == fold_reading(old(self)@, x@));
            },
            Reading::Record(SerialRecord::Unclassified(_)) => {
                if self.unclassified < u64::MAX {
                    self.unclassified = self.unclassified + 1;
                }
            },
        }
    }

    /// One poll of the session with what was drained from the two channels:
    /// every reading from the frame channel, in order, and how that channel
    /// stood afterwards; then every status from the status channel, and how
    /// it stood. Returns after how many milliseconds to poll again, or
    /// `None` when there is no session any more.
    pub fn process(
        &mut self,
        frames: Vec<Reading>,
        frames_end: ChannelEnd,
        statuses: Vec<ReaderStatus>,
        status_end: ChannelEnd,
    ) -> (r: Option<u64>)
        requires
            old(self).wf(),
        ensures
            final(self).wf(),
            (final(self)@, r) == poll(
                old(self)@,
                readings_view(frames@),
                frames_end,
                statuses_view(statuses@),
                status_end,
            ),
    {
        if !self.active {
            return None;
        }
        let ghost r0 = self@;
        let ghost xs = readings_view(frames@);
        assert(xs.subrange(0, xs.len() as int) =~= xs);
        for i in 0..frames.len()
            invariant
                self.wf(),
                xs == readings_view(frames@),
                fold_all(r0, xs) == fold_all(self@, xs.subrange(i as int, xs.len() as int)),
        {
            assert(xs.subrange(i as int, xs.len() as int).drop_first() =~= xs.subrange(
                i + 1,
                xs.len() as int,
            ));
            self.fold(&frames[i]);
        }
        assert(xs.subrange(xs.len() as int, xs.len() as int) =~= Seq::<ReadingView>::empty());
        let ghost r1 = self@;
        let ghost st = statuses_view(statuses@);
        assert(st.subrange(0, st.len() as int) =~= st);
        let mut k: usize = 0;
        while k < statuses.len() && self.active
            invariant
                self.wf(),
                k <= statuses@.len(),
                st == statuses_view(statuses@),
                apply_statuses(r1, st) == apply_statuses(self@, st.subrange(k as int, st.len() as int)),
            decreases statuses@.len() - k,
        {
            assert(st.subrange(k as int, st.len() as int).drop_first() =~= st.subrange(
                k + 1,
                st.len() as int,
            ));
            self.status = statuses[k].duplicate();
            if matches!(self.status, ReaderStatus::Stopped(_)) {
                self.active = false;
            }
            k = k + 1;
        }
        if k == statuses.len() {
            assert(st.subrange(k as int, st.len() as int) =~= Seq::<StatusView>::empty());
        }
        if !self.active {
            return None;
        }
        if frames_end == ChannelEnd::Disconnected || status_end == ChannelEnd::Disconnected {
            self.status = ReaderStatus::Stopped(
                Some(String::from_str("Reader disconnected unexpectedly")),
            );
            self.active = false;
            return None;
        }
        Some(POLL_INTERVAL_MS)
    }
}

proof fn lemma_row_pushed(s: StoreView, ls: Seq<Seq<char>>, row: Seq<i64>, n: nat)
    requires
        keys_distinct(s),
        ls.no_duplicates(),
        n <= ls.len(),
        row.len() == ls.len() + 1,
    ensures
        keys_distinct(row_pushed(s, ls, row, n)),
        forall|j: int|
            0 <= j < n ==> #[trigger] series_of(row_pushed(s, ls, row, n), KeyView::Label(ls[j]))
                == series_of(s, KeyView::Label(ls[j])).push((row[0], row[j + 1])),
        forall|k: KeyView|
            (forall|j: int| 0 <= j < n ==> k != KeyView::Label(#[trigger] ls[j])) ==> #[trigger] series_of(
                row_pushed(s, ls, row, n),
                k,
            ) == series_of(s, k),
    decreases n,
{
    if n > 0 {
        let m = (n - 1) as nat;
        lemma_row_pushed(s, ls, row, m);
        let t = row_pushed(s, ls, row, m);
        let key = KeyView::Label(ls[m as int]);
        let p = (row[0], row[n as int]);
        lemma_pushed_series(t, key, p, key);
        assert forall|j: int| 0 <= j < n implies #[trigger] series_of(
            row_pushed(s, ls, row, n),
            KeyView::Label(ls[j]),
        ) == series_of(s, KeyView::Label(ls[j])).push((row[0], row[j + 1])) by {
            lemma_pushed_series(t, key, p, KeyView::Label(ls[j]));
            if j < m {
                assert(ls[j] != ls[m as int]);
            } else {
                assert forall|i: int| 0 <= i < m implies key != KeyView::Label(#[trigger] ls[i]) by {
                    assert(ls[i] != ls[m as int]);
                }
            }
        }
        assert forall|k: KeyView|
            (forall|j: int| 0 <= j < n ==> k != KeyView::Label(#[trigger] ls[j])) implies #[trigger] series_of(
            row_pushed(s, ls, row, n),
            k,
        ) == series_of(s, k) by {
            lemma_pushed_series(t, key, p, k);
            assert(k != KeyView::Label(ls[m as int]));
        }
    }
}

/// After a label set whose labels are distinct and a value row one longer
/// than it, each label has a series of exactly one sample, the row's
/// timestamp with the label's value, and no other series remains.
pub proof fn lemma_label_set_then_row(r: ReaderState, ls: Seq<Seq<char>>, row: Seq<i64>)
    requires
        ls.no_duplicates(),
        row.len() == ls.len() + 1,
    ensures
        ({
            let r2 = fold_reading(
                fold_reading(r, ReadingView::Record(RecordView::LabelSet(ls))),
                ReadingView::Record(RecordView::ValueRow(row)),
            );
            &&& forall|i: int|
                0 <= i < ls.len() ==> #[trigger] series_of(r2.store, KeyView::Label(ls[i]))
                    == seq![(row[0], row[i + 1])]
            &&& forall|k: KeyView|
                (forall|i: int| 0 <= i < ls.len() ==> k != KeyView::Label(#[trigger] ls[i]))
                    ==> #[trigger] series_of(r2.store, k) == Seq::<(i64, i64)>::empty()
        }),
{
    let empty = Seq::<(KeyView, Seq<(i64, i64)>)>::empty();
    lemma_row_pushed(empty, ls, row, ls.len());
    assert forall|k: KeyView| series_of(empty, k) == Seq::<(i64, i64)>::empty() by {
        assert(!has_key(empty, k));
    }
    assert forall|i: int| 0 <= i < ls.len() implies #[trigger] series_of(
        row_pushed(empty, ls, row, ls.len()),
        KeyView::Label(ls[i]),
    ) == seq![(row[0], row[i + 1])] by {
        assert(series_of(empty, KeyView::Label(ls[i])) == Seq::<(i64, i64)>::empty());
        assert(Seq::<(i64, i64)>::empty().push((row[0], row[i + 1])) =~= seq![(row[0], row[i + 1])]);
    }
}

/// A value row one longer than the current labels, which are distinct, adds
/// exactly one sample to each label's series, after those already there,
/// and leaves every other series as it was.
pub proof fn lemma_row_appends_one_sample(r: ReaderState, ls: Seq<Seq<char>>, row: Seq<i64>)
    requires
        keys_distinct(r.store),
        r.labels == Some(ls),
        ls.no_duplicates(),
        row.len() == ls.len() + 1,
    ensures
        ({
            let r2 = fold_reading(r, ReadingView::Record(RecordView::ValueRow(row)));
            &&& forall|i: int|
                0 <= i < ls.len() ==> #[trigger] series_of(r2.store, KeyView::Label(ls[i]))
                    == series_of(r.store, KeyView::Label(ls[i])).push((row[0], row[i + 1]))
            &&& forall|k: KeyView|
                (forall|i: int| 0 <= i < ls.len() ==> k != KeyView::Label(#[trigger] ls[i]))
                    ==> #[trigger] series_of(r2.store, k) == series_of(r.store, k)
        }),
{
    lemma_row_pushed(r.store, ls, row, ls.len());
}

/// A value row whose length does not match the current labels, or that
/// comes before any label set, changes no series and no labels; it is
/// counted as dropped.
pub proof fn lemma_mismatched_row_keeps_series(r: ReaderState, row: Seq<i64>)
    requires
        match r.labels {
            Some(ls) => row.len() != ls.len() + 1,
            None => true,
        },
    ensures
        ({
            let r2 = fold_reading(r, ReadingView::Record(RecordView::ValueRow(row)));
            &&& r2.store == r.store
            &&& r2.labels == r.labels
            &&& r2.dropped_rows == bump(r.dropped_rows)
        }),
{
}

} // verus!
