//! The match history: one record per repeat sighting of a catalogued
//! track, kept newest first.
use crate::error::StorageError;
use vstd::prelude::*;

verus! {

/// A repeat sighting of track `id` at `timestamp` (milliseconds since the
/// Unix epoch) with the oracle's `score`.
#[derive(Debug, Clone, Copy, PartialEq, Eq, Structural)]
pub struct MatchData {
    pub id: u128,
    pub timestamp: i64,
    pub score: u8,
}

impl MatchData {
    pub fn new(id: u128, timestamp: i64, score: u8) -> (r: Self)
        ensures
            r == (MatchData { id, timestamp, score }),
    {
        Self { id, timestamp, score }
    }
}

/// No record is older than one after it.
pub open spec fn newest_first(s: Seq<MatchData>) -> bool {
    forall|i: int, j: int| 0 <= i < j < s.len() ==> s[i].timestamp >= s[j].timestamp
}

/// `s` with `m` placed after every record at least as new as `m` and
/// before the first older one.
pub open spec fn insert_by_time(s: Seq<MatchData>, m: MatchData) -> Seq<MatchData>
    decreases s.len(),
{
    if s.len() == 0 {
        seq![m]
    } else if s[0].timestamp >= m.timestamp {
        seq![s[0]] + insert_by_time(s.drop_first(), m)
    } else {
        seq![m] + s
    }
}

/// The records of `s` that belong (or, with `same` false, do not belong)
/// to track `id`.
pub open spec fn of_track(s: Seq<MatchData>, id: u128, same: bool) -> Seq<MatchData> {
    s.filter(track_pred(id, same))
}

pub open spec fn track_pred(id: u128, same: bool) -> spec_fn(MatchData) -> bool {
    |m: MatchData| (m.id == id) == same
}

/// Each record of `of_track(s, id, same)` stands in `s` and matches the
/// selection.
pub proof fn lemma_of_track_members(s: Seq<MatchData>, id: u128, same: bool)
    ensures
        forall|i: int|
            0 <= i < of_track(s, id, same).len() ==> s.contains(#[trigger] of_track(s, id, same)[i])
                && (of_track(s, id, same)[i].id == id) == same,
{
    assert forall|i: int| 0 <= i < of_track(s, id, same).len() implies s.contains(
        #[trigger] of_track(s, id, same)[i],
    ) && (of_track(s, id, same)[i].id == id) == same by {
        let f = of_track(s, id, same);
        assert(f.contains(f[i]));
        s.lemma_filter_contains_rev(track_pred(id, same), f[i]);
        s.lemma_filter_pred(track_pred(id, same), i);
    }
}

proof fn lemma_insert_at(s: Seq<MatchData>, m: MatchData, p: int)
    requires
        0 <= p <= s.len(),
        forall|j: int| 0 <= j < p ==> #[trigger] s[j].timestamp >= m.timestamp,
        p < s.len() ==> s[p].timestamp < m.timestamp,
    ensures
        insert_by_time(s, m) == s.insert(p, m),
    decreases p,
{
    if p == 0 {
        assert(insert_by_time(s, m) =~= s.insert(p, m));
    } else {
        let t = s.drop_first();
        assert forall|j: int| 0 <= j < p - 1 implies #[trigger] t[j].timestamp >= m.timestamp by {
            assert(t[j] == s[j + 1]);
        }
        lemma_insert_at(t, m, p - 1);
        assert(seq![s[0]] + t.insert(p - 1, m) =~= s.insert(p, m));
    }
}

/// Records of track ids, newest first.
pub struct MatchesStorage {
    rows: Vec<MatchData>,
}

impl View for MatchesStorage {
    type V = Seq<MatchData>;

    closed spec fn view(&self) -> Seq<MatchData> {
        self.rows@
    }
}

impl MatchesStorage {
    pub closed spec fn wf(&self) -> bool {
        newest_first(self.rows@)
    }

    pub fn new() -> (r: Self)
        ensures
            r.wf(),
            newest_first(r@),
            r@ == Seq::<MatchData>::empty(),
    {
        MatchesStorage { rows: Vec::new() }
    }

    /// Records a sighting, keeping the history newest first.
    pub fn insert(&mut self, data: &MatchData) -> (r: Result<(), StorageError>)
        requires
            old(self).wf(),
        ensures
            final(self).wf(),
            newest_first(final(self)@),
            r is Ok,
            final(self)@ == insert_by_time(old(self)@, *data),
    {
        let mut p: usize = 0;
        while p < self.rows.len() && self.rows[p].timestamp >= data.timestamp
            invariant
                p <= self.rows@.len(),
                forall|j: int| 0 <= j < p ==> #[trigger] self.rows@[j].timestamp >= data.timestamp,
            decreases self.rows@.len() - p,
        {
            p = p + 1;
        }
        proof {
            lemma_insert_at(self.rows@, *data, p as int);
        }
        let ghost before = self.rows@;
        self.rows.insert(p, *data);
        assert forall|i: int, j: int|
            0 <= i < j < self.rows@.len() implies self.rows@[i].timestamp
            >= self.rows@[j].timestamp by {
            let oi = if i < p { i } else { i - 1 };
            let oj = if j < p { j } else { j - 1 };
            if i != p && j != p {
                assert(self.rows@[i] == before[oi]);
                assert(self.rows@[j] == before[oj]);
            } else if i == p {
                assert(self.rows@[j] == before[oj]);
                assert(before[p as int].timestamp >= before[oj].timestamp);
            } else {
                assert(self.rows@[i] == before[oi]);
            }
        }
        Ok(())
    }

    fn select(&self, id: u128, same: bool) -> (r: Vec<MatchData>)
        requires
            self.wf(),
        ensures
            r@ == of_track(self@, id, same),
            newest_first(r@),
    {
        let ghost pred = track_pred(id, same);
        let mut out: Vec<MatchData> = Vec::new();
        let mut i: usize = 0;
        while i < self.rows.len()
            invariant
                self.wf(),
                i <= self.rows@.len(),
                pred == track_pred(id, same),
                out@ == self.rows@.subrange(0, i as int).filter(pred),
                newest_first(out@),
                i < self.rows@.len() ==> forall|k: int|
                    0 <= k < out@.len() ==> #[trigger] out@[k].timestamp
                        >= self.rows@[i as int].timestamp,
            decreases self.rows@.len() - i,
        {
            let m = self.rows[i];
            proof {
                self.rows@.subrange(0, i as int).lemma_filter_push(m, pred);
                assert(self.rows@.subrange(0, i + 1) =~= self.rows@.subrange(0, i as int).push(m));
            }
            if (m.id == id) == same {
                out.push(m);
            }
            i = i + 1;
        }
        assert(self.rows@.subrange(0, self.rows@.len() as int) =~= self.rows@);
        out
    }

    /// The records of track `id`, newest first.
    pub fn get(&self, id: u128) -> (r: Result<Vec<MatchData>, StorageError>)
        requires
            self.wf(),
        ensures
            r matches Ok(v) && v@ == of_track(self@, id, true) && newest_first(v@),
    {
        Ok(self.select(id, true))
    }

    /// Drops every record of track `id`.
    pub fn remove_track(&mut self, id: u128)
        requires
            old(self).wf(),
        ensures
            final(self).wf(),
            newest_first(final(self)@),
            final(self)@ == of_track(old(self)@, id, false),
    {
        self.rows = self.select(id, false);
    }
}

} // verus!
