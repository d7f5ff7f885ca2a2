use vstd::prelude::*;

verus! {

/// What a series is keyed by: a label of the labelled protocol, or the
/// board and sensor of a fixed-schema frame.
#[derive(Debug)]
pub enum SeriesKey {
    Label(String),
    Sensor { board_id: u8, sensor_id: u8 },
}

/// A `SeriesKey` as plain values.
pub enum KeyView {
    Label(Seq<char>),
    Sensor(u8, u8),
}

impl View for SeriesKey {
    type V = KeyView;

    open spec fn view(&self) -> KeyView {
        match self {
            SeriesKey::Label(s) => KeyView::Label(s@),
            SeriesKey::Sensor { board_id, sensor_id } => KeyView::Sensor(*board_id, *sensor_id),
        }
    }
}

impl SeriesKey {
    /// Whether two keys name the same series.
    pub fn same(&self, other: &SeriesKey) -> (r: bool)
        ensures
            r == (self@ == other@),
    {
        match (self, other) {
            (SeriesKey::Label(a), SeriesKey::Label(b)) => String::eq(a, b),
            (
                SeriesKey::Sensor { board_id: b1, sensor_id: s1 },
                SeriesKey::Sensor { board_id: b2, sensor_id: s2 },
            ) => *b1 == *b2 && *s1 == *s2,
            _ => false,
        }
    }
}

/// The samples of one source, `(time, value)`, in arrival order.
pub struct Series {
    pub key: SeriesKey,
    pub points: Vec<(i64, i64)>,
}

pub type StoreView = Seq<(KeyView, Seq<(i64, i64)>)>;

/// No key appears twice.
pub open spec fn keys_distinct(s: StoreView) -> bool {
    forall|i: int, j: int| 0 <= i < s.len() && 0 <= j < s.len() && i != j ==> s[i].0 != s[j].0
}

pub open spec fn has_key(s: StoreView, k: KeyView) -> bool {
    exists|i: int| 0 <= i < s.len() && s[i].0 == k
}

/// The samples kept under `k`: none when no series has that key.
pub open spec fn series_of(s: StoreView, k: KeyView) -> Seq<(i64, i64)> {
    if has_key(s, k) {
        s[choose|i: int| 0 <= i < s.len() && s[i].0 == k].1
    } else {
        seq![]
    }
}

/// `s` with sample `p` appended to the series of `k`; a key not yet seen
/// opens a new series after the others.
pub open spec fn pushed(s: StoreView, k: KeyView, p: (i64, i64)) -> StoreView {
    if has_key(s, k) {
        let i = choose|i: int| 0 <= i < s.len() && s[i].0 == k;
        s.update(i, (k, s[i].1.push(p)))
    } else {
        s.push((k, seq![p]))
    }
}

/// Appending a sample to one series leaves every other series as it was.
pub proof fn lemma_pushed_series(s: StoreView, k: KeyView, p: (i64, i64), k2: KeyView)
    requires
        keys_distinct(s),
    ensures
        keys_distinct(pushed(s, k, p)),
        series_of(pushed(s, k, p), k2) == if k2 == k {
            series_of(s, k).push(p)
        } else {
            series_of(s, k2)
        },
{
    let t = pushed(s, k, p);
    if has_key(s, k) {
        let i = choose|i: int| 0 <= i < s.len() && s[i].0 == k;
        assert(t[i].0 == k);
        assert forall|a: int, b: int|
            0 <= a < t.len() && 0 <= b < t.len() && a != b implies t[a].0 != t[b].0 by {
            assert(t[a].0 == s[a].0);
            assert(t[b].0 == s[b].0);
        }
        if k2 == k {
            assert(has_key(t, k));
            let j = choose|j: int| 0 <= j < t.len() && t[j].0 == k;
            assert(j == i);
        } else if has_key(s, k2) {
            let j = choose|j: int| 0 <= j < s.len() && s[j].0 == k2;
            assert(t[j].0 == k2);
            assert(has_key(t, k2));
            let j2 = choose|j2: int| 0 <= j2 < t.len() && t[j2].0 == k2;
            assert(t[j2].0 == s[j2].0);
            assert(j2 == j);
        } else {
            assert forall|j: int| 0 <= j < t.len() implies t[j].0 != k2 by {
                assert(t[j].0 == s[j].0 || j == i);
            }
        }
    } else {
        assert(t[s.len() as int].0 == k);
        assert forall|a: int, b: int|
            0 <= a < t.len() && 0 <= b < t.len() && a != b implies t[a].0 != t[b].0 by {
            if a < s.len() {
                assert(t[a].0 == s[a].0);
            }
            if b < s.len() {
                assert(t[b].0 == s[b].0);
            }
        }
        if k2 == k {
            assert(has_key(t, k));
            let j = choose|j: int| 0 <= j < t.len() && t[j].0 == k;
            if j < s.len() {
                assert(t[j].0 == s[j].0);
            }
            assert(j == s.len());
            assert(seq![p] =~= seq![].push(p));
        } else if has_key(s, k2) {
            let j = choose|j: int| 0 <= j < s.len() && s[j].0 == k2;
            assert(t[j].0 == k2);
            assert(has_key(t, k2));
            let j2 = choose|j2: int| 0 <= j2 < t.len() && t[j2].0 == k2;
            assert(j2 < s.len());
            assert(t[j2].0 == s[j2].0);
            assert(j2 == j);
        } else {
            assert forall|j: int| 0 <= j < t.len() implies t[j].0 != k2 by {
                if j < s.len() {
                    assert(t[j].0 == s[j].0);
                }
            }
        }
    }
}

fn copy_points(v: &Vec<(i64, i64)>) -> (r: Vec<(i64, i64)>)
    ensures
        r@ == v@,
{
    let mut r: Vec<(i64, i64)> = Vec::new();
    for i in 0..v.len()
        invariant
            r@ == v@.subrange(0, i as int),
    {
        r.push(v[i]);
        assert(r@ =~= v@.subrange(0, i + 1));
    }
    assert(r@ =~= v@);
    r
}

/// Samples grouped by source. Each key has at most one series; series stand
/// in the order in which their keys were first seen.
pub struct SeriesStore {
    series: Vec<Series>,
}

impl View for SeriesStore {
    type V = StoreView;

    closed spec fn view(&self) -> StoreView {
        self.series@.map_values(|s: Series| (s.key@, s.points@))
    }
}

impl SeriesStore {
    pub open spec fn wf(&self) -> bool {
        keys_distinct(self@)
    }

    pub fn new() -> (r: SeriesStore)
        ensures
            r@ == Seq::<(KeyView, Seq<(i64, i64)>)>::empty(),
            r.wf(),
    {
        let r = SeriesStore { series: Vec::new() };
        assert(r@ =~= Seq::<(KeyView, Seq<(i64, i64)>)>::empty());
        r
    }

    /// Drops every series.
    pub fn clear(&mut self)
        ensures
            final(self)@ == Seq::<(KeyView, Seq<(i64, i64)>)>::empty(),
            final(self).wf(),
    {
        self.series = Vec::new();
        assert(self@ =~= Seq::<(KeyView, Seq<(i64, i64)>)>::empty());
    }

    /// The number of series.
    pub fn len(&self) -> (r: usize)
        ensures
            r == self@.len(),
    {
        self.series.len()
    }

    /// The key of the `i`-th series.
    pub fn key(&self, i: usize) -> (r: &SeriesKey)
        requires
            i < self@.len(),
        ensures
            r@ == self@[i as int].0,
    {
        &self.series[i].key
    }

    /// The samples of the `i`-th series.
    pub fn points(&self, i: usize) -> (r: &Vec<(i64, i64)>)
        requires
            i < self@.len(),
        ensures
            r@ == self@[i as int].1,
    {
        &self.series[i].points
    }

    /// The position of the series of `key`, if there is one.
    pub fn find(&self, key: &SeriesKey) -> (r: Option<usize>)
        ensures
            r matches Some(i) ==> i < self@.len() && self@[i as int].0 == key@,
            r is None ==> !has_key(self@, key@),
    {
        let mut i: usize = 0;
        while i < self.series.len()
            invariant
                i <= self@.len(),
                forall|j: int| 0 <= j < i ==> self@[j].0 != key@,
            decreases self@.len() - i,
        {
            if self.series[i].key.same(key) {
                return Some(i);
            }
            i = i + 1;
        }
        None
    }

    /// The samples kept under `key`.
    pub fn series(&self, key: &SeriesKey) -> (r: Vec<(i64, i64)>)
        requires
            self.wf(),
        ensures
            r@ == series_of(self@, key@),
    {
        match self.find(key) {
            Some(i) => {
                proof {
                    assert(has_key(self@, key@));
                    let j = choose|j: int| 0 <= j < self@.len() && self@[j].0 == key@;
                    assert(j == i);
                }
                copy_points(&self.series[i].points)
            },
            None => Vec::new(),
        }
    }

    /// Appends sample `(time, value)` to the series of `key`.
    pub fn push_point(&mut self, key: SeriesKey, time: i64, value: i64)
        requires
            old(self).wf(),
        ensures
            final(self).wf(),
            final(self)@ == pushed(old(self)@, key@, (time, value)),
    {
        let ghost k = key@;
        match self.find(&key) {
            Some(i) => {
                let ghost j = choose|j: int| 0 <= j < self@.len() && self@[j].0 == k;
                assert(j == i);
                let ghost before = self@;
                let mut slot = Series {
                    key: SeriesKey::Sensor { board_id: 0, sensor_id: 0 },
                    points: Vec::new(),
                };
                self.series.set_and_swap(i, &mut slot);
                slot.points.push((time, value));
                self.series.set_and_swap(i, &mut slot);
                assert(self@ =~= before.update(i as int, (k, before[i as int].1.push((time, value)))));
            },
            None => {
                let ghost before = self@;
                let mut pts: Vec<(i64, i64)> = Vec::new();
                pts.push((time, value));
                self.series.push(Series { key, points: pts });
                assert(self@ =~= before.push((k, seq![(time, value)])));
            },
        }
        proof {
            lemma_pushed_series(old(self)@, k, (time, value), k);
        }
    }
}

} // verus!
