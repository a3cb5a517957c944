//! Deciding which segments of a refreshed playlist are new.
use vstd::prelude::*;

verus! {

/// Sequence-number policy: remembers the highest segment number handed
/// out so far (the watermark) and accepts only numbers above it.
pub struct SegmentNumberFilter {
    last_seen_number: usize,
}

/// One step of the sequence-number policy from watermark `w`: whether
/// `n` is new, and the watermark afterwards.
pub open spec fn number_step(w: nat, n: nat) -> (bool, nat) {
    if n > w {
        (true, n)
    } else {
        (false, w)
    }
}

/// What the sequence-number policy answers, call by call, when fed
/// `numbers` starting from watermark `w`.
pub open spec fn number_outcomes(w: nat, numbers: Seq<nat>) -> Seq<bool>
    decreases numbers.len(),
{
    if numbers.len() == 0 {
        Seq::empty()
    } else {
        let (fresh, next) = number_step(w, numbers[0]);
        seq![fresh] + number_outcomes(next, numbers.drop_first())
    }
}

proof fn lemma_number_outcomes_from(w: nat, numbers: Seq<nat>)
    ensures
        number_outcomes(w, numbers).len() == numbers.len(),
        forall|i: int|
            0 <= i < numbers.len() ==> #[trigger] number_outcomes(w, numbers)[i] == (numbers[i]
                > w && forall|j: int| 0 <= j < i ==> numbers[j] < numbers[i]),
    decreases numbers.len(),
{
    if numbers.len() > 0 {
        let (fresh, next) = number_step(w, numbers[0]);
        let rest = numbers.drop_first();
        lemma_number_outcomes_from(next, rest);
        assert forall|i: int| 0 <= i < numbers.len() implies #[trigger] number_outcomes(
            w,
            numbers,
        )[i] == (numbers[i] > w && forall|j: int| 0 <= j < i ==> numbers[j] < numbers[i]) by {
            if i > 0 {
                assert(number_outcomes(w, numbers)[i] == number_outcomes(next, rest)[i - 1]);
                assert(rest[i - 1] == numbers[i]);
                if number_outcomes(w, numbers)[i] {
                    assert forall|j: int| 0 <= j < i implies numbers[j] < numbers[i] by {
                        if j > 0 {
                            assert(rest[j - 1] == numbers[j]);
                        }
                    }
                } else if numbers[i] > w {
                    let k = choose|k: int| 0 <= k < i - 1 && !(#[trigger] rest[k] < rest[i - 1]);
                    if !(rest[i - 1] > next) {
                        assert(!(numbers[0] < numbers[i]));
                    } else {
                        assert(rest[k] == numbers[k + 1]);
                    }
                }
            }
        }
    }
}

/// Fed any sequence of segment numbers, starting from a fresh filter, the
/// sequence-number policy answers `true` for a number exactly when it is
/// above 0 and above every number fed before it: once for each number
/// that raises the watermark, never for a repeat or a decrease.
pub proof fn lemma_number_filter_accepts_each_rise_once(numbers: Seq<nat>)
    ensures
        number_outcomes(0, numbers).len() == numbers.len(),
        forall|i: int|
            0 <= i < numbers.len() ==> #[trigger] number_outcomes(0, numbers)[i] == (numbers[i]
                > 0 && forall|j: int| 0 <= j < i ==> numbers[j] < numbers[i]),
        forall|i: int, j: int|
            #![trigger number_outcomes(0, numbers)[i], numbers[j]]
            0 <= j < i < numbers.len() && numbers[i] <= numbers[j] ==> !number_outcomes(
                0,
                numbers,
            )[i],
{
    lemma_number_outcomes_from(0, numbers);
}

impl SegmentNumberFilter {
    /// The watermark: highest number accepted so far, 0 before any.
    pub closed spec fn watermark(&self) -> nat {
        self.last_seen_number as nat
    }

    pub fn new() -> (r: Self)
        ensures
            r.watermark() == 0,
    {
        Self { last_seen_number: 0 }
    }

    /// Returns `true` iff `number` lies above the watermark, and then raises
    /// the watermark to `number`.
    pub fn need_download(&mut self, number: usize) -> (r: bool)
        ensures
            (r, final(self).watermark()) == number_step(old(self).watermark(), number as nat),
    {
        if number <= self.last_seen_number {
            false
        } else {
            self.last_seen_number = number;
            true
        }
    }
}

/// The texts of a list of strings.
pub open spec fn texts(v: Seq<String>) -> Seq<Seq<char>> {
    v.map_values(|u: String| u@)
}

/// Holds of every text but `uri`.
pub open spec fn other_than(uri: Seq<char>) -> spec_fn(Seq<char>) -> bool {
    |u: Seq<char>| u != uri
}

/// One step of the recency policy: whether `uri` is new to `recent` (least
/// recently seen first), and the list afterwards, where `uri` has become the
/// most recent and the least recent is evicted beyond `capacity`.
pub open spec fn uri_step(recent: Seq<Seq<char>>, capacity: nat, uri: Seq<char>) -> (
    bool,
    Seq<Seq<char>>,
) {
    let pushed = recent.filter(other_than(uri)).push(uri);
    (!recent.contains(uri), if pushed.len() > capacity {
        pushed.drop_first()
    } else {
        pushed
    })
}

/// Recency policy: remembers the last few segment URIs and accepts a URI
/// that is not among them.
pub struct SegmentUriFilter {
    recent: Vec<String>,
    capacity: usize,
}

impl View for SegmentUriFilter {
    type V = Seq<Seq<char>>;

    /// The remembered URIs, least recently seen first.
    closed spec fn view(&self) -> Seq<Seq<char>> {
        texts(self.recent@)
    }
}

impl SegmentUriFilter {
    pub closed spec fn capacity(&self) -> nat {
        self.capacity as nat
    }

    pub fn new(capacity: usize) -> (r: Self)
        ensures
            r@ == Seq::<Seq<char>>::empty(),
            r.capacity() == capacity,
    {
        let r = SegmentUriFilter { recent: Vec::new(), capacity };
        assert(r@ =~= Seq::<Seq<char>>::empty());
        r
    }

    /// Returns `true` iff `uri` is not remembered; either way `uri` becomes
    /// the most recent, and the least recent is forgotten beyond capacity.
    pub fn need_download(&mut self, uri: &str) -> (r: bool)
        ensures
            final(self).capacity() == old(self).capacity(),
            (r, final(self)@) == uri_step(old(self)@, old(self).capacity(), uri@),
    {
        let u = uri.to_owned();
        let ghost pred = other_than(uri@);
        let ghost all = texts(self.recent@);
        let mut kept: Vec<String> = Vec::new();
        let mut found = false;
        let mut i: usize = 0;
        while i < self.recent.len()
            invariant
                i <= self.recent@.len(),
                u@ == uri@,
                pred == other_than(uri@),
                all == texts(self.recent@),
                texts(kept@) == all.subrange(0, i as int).filter(pred),
                found == all.subrange(0, i as int).contains(uri@),
            decreases self.recent@.len() - i,
        {
            let ghost prefix = all.subrange(0, i as int);
            proof {
                prefix.lemma_filter_push(all[i as int], pred);
                assert(all.subrange(0, i + 1) =~= prefix.push(all[i as int]));
            }
            if self.recent[i] == u {
                found = true;
                assert(all.subrange(0, i + 1)[i as int] == uri@);
            } else {
                assert(all.subrange(0, i + 1).contains(uri@) ==> prefix.contains(uri@)) by {
                    if all.subrange(0, i + 1).contains(uri@) {
                        let k = choose|k: int|
                            0 <= k < i + 1 && #[trigger] all.subrange(0, i + 1)[k] == uri@;
                        assert(prefix[k] == uri@);
                    }
                }
                kept.push(self.recent[i].clone());
                assert(texts(kept@) =~= texts(kept@).drop_last().push(self.recent@[i as int]@));
                assert(texts(kept@).drop_last() =~= prefix.filter(pred)) by {
                    assert(texts(kept@).drop_last() =~= texts(kept@.drop_last()));
                }
            }
            proof {
                if found && !prefix.contains(uri@) {
                    assert(all.subrange(0, i + 1)[i as int] == uri@);
                }
            }
            i = i + 1;
        }
        assert(all.subrange(0, self.recent@.len() as int) =~= all);
        kept.push(u);
        assert(texts(kept@) =~= all.filter(pred).push(uri@)) by {
            assert(texts(kept@).drop_last() =~= texts(kept@.drop_last()));
        }
        if kept.len() > self.capacity {
            kept.remove(0);
            assert(texts(kept@) =~= all.filter(pred).push(uri@).drop_first());
        }
        self.recent = kept;
        !found
    }
}

/// The policy that decides which segments are new.
pub enum SegmentDownloadFilter {
    Number(SegmentNumberFilter),
    Uri(SegmentUriFilter),
}

impl SegmentDownloadFilter {
    /// Asks the chosen policy about the segment numbered `number` at `uri`.
    pub fn need_download(&mut self, number: usize, uri: &str) -> (r: bool)
        ensures
            match (*old(self), *final(self)) {
                (SegmentDownloadFilter::Number(a), SegmentDownloadFilter::Number(b)) => (
                r,
                b.watermark(),
                ) == number_step(a.watermark(), number as nat),
                (SegmentDownloadFilter::Uri(a), SegmentDownloadFilter::Uri(b)) => {
                    &&& b.capacity() == a.capacity()
                    &&& (r, b@) == uri_step(a@, a.capacity(), uri@)
                },
                _ => false,
            },
    {
        match self {
            SegmentDownloadFilter::Number(f) => f.need_download(number),
            SegmentDownloadFilter::Uri(f) => f.need_download(uri),
        }
    }
}

} // verus!
