//! The intake's small decisions around one downloaded segment: the name it
//! is filed under, and what a consolidated oracle answer leads to.
use crate::classifier::{kind_text, SuggestedSegmentContentKind};
use crate::emysound::QueryResult;
use crate::text::{chars_of, string_of};
use vstd::prelude::*;

verus! {

fn append_text(out: &mut Vec<char>, s: &str)
    ensures
        final(out)@ == old(out)@ + s@,
{
    let c = chars_of(s);
    let mut i: usize = 0;
    while i < c.len()
        invariant
            i <= c@.len(),
            c@ == s@,
            out@ == old(out)@ + c@.subrange(0, i as int),
        decreases c@.len() - i,
    {
        out.push(c[i]);
        i = i + 1;
        assert(out@ =~= old(out)@ + c@.subrange(0, i as int));
    }
    assert(c@.subrange(0, c@.len() as int) =~= c@);
}

/// The file name a downloaded segment is handed to the oracle under:
/// `<time>_<kind>_<artist>_<title>.<last part of the segment URL>`, with
/// `unknown` for a URL without path segments.
pub fn download_filename(
    time: &str,
    kind: SuggestedSegmentContentKind,
    artist: &str,
    title: &str,
    last_segment: Option<&str>,
) -> (r: String)
    ensures
        r@ == time@ + "_"@ + kind_text(kind) + "_"@ + artist@ + "_"@ + title@ + "."@ + match last_segment {
            Some(s) => s@,
            None => "unknown"@,
        },
{
    let mut out: Vec<char> = Vec::new();
    append_text(&mut out, time);
    append_text(&mut out, "_");
    append_text(&mut out, kind.as_str());
    append_text(&mut out, "_");
    append_text(&mut out, artist);
    append_text(&mut out, "_");
    append_text(&mut out, title);
    append_text(&mut out, ".");
    match last_segment {
        Some(s) => append_text(&mut out, s),
        None => append_text(&mut out, "unknown"),
    }
    string_of(&out)
}

/// What to do after consolidating an oracle answer.
#[derive(Debug, Clone, PartialEq, Eq)]
pub enum IntakeStep {
    /// Nothing genuine matched: insert the segment as a new track.
    NewTrack,
    /// Record one sighting per genuine match: its track id and score.
    Repeat(Vec<(u128, u8)>),
}

pub open spec fn id_and_score(q: QueryResult) -> (u128, u8) {
    (q.id, q.score)
}

/// A new track when no genuine match is left; otherwise a sighting of each
/// matched track, in order.
pub fn intake_step(best: &Vec<QueryResult>) -> (r: IntakeStep)
    ensures
        best@.len() == 0 <==> r is NewTrack,
        r matches IntakeStep::Repeat(v) ==> v@ == best@.map_values(|q: QueryResult| id_and_score(q)),
{
    if best.len() == 0 {
        return IntakeStep::NewTrack;
    }
    let mut v: Vec<(u128, u8)> = Vec::new();
    let mut i: usize = 0;
    while i < best.len()
        invariant
            i <= best@.len(),
            v@ == best@.subrange(0, i as int).map_values(|q: QueryResult| id_and_score(q)),
        decreases best@.len() - i,
    {
        v.push((best[i].id, best[i].score));
        i = i + 1;
        assert(v@ =~= best@.subrange(0, i as int).map_values(|q: QueryResult| id_and_score(q)));
    }
    assert(best@.subrange(0, best@.len() as int) =~= best@);
    IntakeStep::Repeat(v)
}

} // verus!
