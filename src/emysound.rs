//! Results of the fingerprinting oracle and the heuristic that decides
//! which of them are genuine matches of the queried audio.
use vstd::prelude::*;

verus! {

/// One candidate returned by an oracle query. `score` is the oracle's
/// coverage as a whole percentage (coverage 0.9 gives 90).
pub struct QueryResult {
    pub id: u128,
    pub score: u8,
    pub artist: Option<String>,
    pub title: Option<String>,
}

pub open spec fn opt_view(o: Option<String>) -> Option<Seq<char>> {
    match o {
        Some(s) => Some(s@),
        None => None,
    }
}

fn opt_text_eq(a: &Option<String>, b: &Option<String>) -> (r: bool)
    ensures
        r == (opt_view(*a) == opt_view(*b)),
{
    match (a, b) {
        (Some(x), Some(y)) => *x == *y,
        (None, None) => true,
        _ => false,
    }
}

fn opt_text_copy(a: &Option<String>) -> (r: Option<String>)
    ensures
        r == *a,
{
    match a {
        Some(x) => Some(x.clone()),
        None => None,
    }
}

impl QueryResult {
    pub fn new(id: u128, score: u8, artist: Option<String>, title: Option<String>) -> (r: Self)
        ensures
            r == (QueryResult { id, score, artist, title }),
    {
        QueryResult { id, score, artist, title }
    }

    pub fn id(&self) -> (r: u128)
        ensures
            r == self.id,
    {
        self.id
    }

    pub fn artist(&self) -> (r: &Option<String>)
        ensures
            r == &self.artist,
    {
        &self.artist
    }

    pub fn title(&self) -> (r: &Option<String>)
        ensures
            r == &self.title,
    {
        &self.title
    }

    pub fn score(&self) -> (r: u8)
        ensures
            r == self.score,
    {
        self.score
    }

    /// A copy equal to `self`.
    pub fn copy(&self) -> (r: Self)
        ensures
            r == *self,
    {
        QueryResult {
            id: self.id,
            score: self.score,
            artist: opt_text_copy(&self.artist),
            title: opt_text_copy(&self.title),
        }
    }
}

/// `other` backs `r` up: another track id that agrees on artist or title,
/// and whose score and `r`'s add up to between 90 and 100.
pub open spec fn backs_up(r: QueryResult, other: QueryResult) -> bool {
    &&& other.id != r.id
    &&& opt_view(other.artist) == opt_view(r.artist) || opt_view(other.title) == opt_view(
        r.title,
    )
    &&& 90 <= r.score + other.score <= 100
}

/// `r` is a genuine match among `results`: it scores at least 75, or some
/// result of the list backs it up.
pub open spec fn is_genuine(results: Seq<QueryResult>, r: QueryResult) -> bool {
    r.score >= 75 || exists|j: int| 0 <= j < results.len() && backs_up(r, #[trigger] results[j])
}

fn has_backing(results: &Vec<QueryResult>, r: &QueryResult) -> (b: bool)
    ensures
        b == exists|j: int| 0 <= j < results@.len() && backs_up(*r, #[trigger] results@[j]),
{
    let mut j: usize = 0;
    while j < results.len()
        invariant
            j <= results@.len(),
            forall|k: int| 0 <= k < j ==> !backs_up(*r, #[trigger] results@[k]),
        decreases results@.len() - j,
    {
        let o = &results[j];
        let sum: u16 = r.score as u16 + o.score as u16;
        if o.id != r.id && (opt_text_eq(&o.artist, &r.artist) || opt_text_eq(&o.title, &r.title))
            && 90 <= sum && sum <= 100 {
            assert(backs_up(*r, results@[j as int]));
            return true;
        }
        j = j + 1;
    }
    false
}

/// The genuine matches among `results`, in their order.
pub fn best_results(results: Vec<QueryResult>) -> (out: Vec<QueryResult>)
    ensures
        out@ == results@.filter(|r: QueryResult| is_genuine(results@, r)),
{
    let ghost pred = |r: QueryResult| is_genuine(results@, r);
    let mut out: Vec<QueryResult> = Vec::new();
    let mut i: usize = 0;
    while i < results.len()
        invariant
            i <= results@.len(),
            pred == (|r: QueryResult| is_genuine(results@, r)),
            out@ == results@.subrange(0, i as int).filter(pred),
        decreases results@.len() - i,
    {
        let r = &results[i];
        let keep = r.score >= 75 || has_backing(&results, r);
        proof {
            results@.subrange(0, i as int).lemma_filter_push(results@[i as int], pred);
            assert(results@.subrange(0, i + 1) =~= results@.subrange(0, i as int).push(
                results@[i as int],
            ));
        }
        if keep {
            out.push(r.copy());
        }
        i = i + 1;
    }
    assert(results@.subrange(0, results@.len() as int) =~= results@);
    out
}

/// What the oracle stores for a newly catalogued track.
pub struct TrackInfo {
    pub id: u128,
    pub artist: String,
    pub title: String,
}

impl TrackInfo {
    pub fn new(id: u128, artist: String, title: String) -> (r: Self)
        ensures
            r == (TrackInfo { id, artist, title }),
    {
        Self { id, artist, title }
    }
}

} // verus!
