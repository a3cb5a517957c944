//! The catalog store: tracks (metadata and audio) and their match history,
//! with referential integrity between them.
use crate::audio::{audio_view, AudioData, AudioStorage};
use crate::classifier::SuggestedSegmentContentKind;
use crate::error::StorageError;
use crate::matches::{
    insert_by_time, lemma_of_track_members, newest_first, of_track, MatchData, MatchesStorage,
};
use crate::metadata::{audio_kind_of, AudioKind, Metadata, MetadataStorage};
use vstd::prelude::*;

verus! {

/// A catalogued track as the catalog describes it.
pub struct TrackModel {
    pub added_at: i64,
    pub kind: AudioKind,
    pub artist: Seq<char>,
    pub title: Seq<char>,
    pub content_type: Seq<char>,
    pub bytes: Seq<u8>,
}

/// The whole catalog: tracks by id, and the match history newest first.
pub struct DbModel {
    pub tracks: Map<u128, TrackModel>,
    pub matches: Seq<MatchData>,
}

impl DbModel {
    /// Every match record refers to a catalogued track, and the history is
    /// newest first.
    pub open spec fn inv(self) -> bool {
        &&& forall|i: int|
            0 <= i < self.matches.len() ==> self.tracks.contains_key(#[trigger] self.matches[i].id)
        &&& newest_first(self.matches)
    }
}

/// Adding track `id`: refused for empty audio or a taken id; otherwise the
/// track joins the catalog.
pub open spec fn add_track_spec(m: DbModel, id: u128, t: TrackModel) -> (DbModel, Result<
    (),
    StorageError,
>) {
    if t.bytes.len() == 0 {
        (m, Err(StorageError::EmptyBytes))
    } else if m.tracks.contains_key(id) {
        (m, Err(StorageError::DuplicateId))
    } else {
        (DbModel { tracks: m.tracks.insert(id, t), matches: m.matches }, Ok(()))
    }
}

/// Recording a sighting: refused when its track is not catalogued.
pub open spec fn add_match_spec(m: DbModel, rec: MatchData) -> (DbModel, Result<(), StorageError>) {
    if !m.tracks.contains_key(rec.id) {
        (m, Err(StorageError::UnknownTrack))
    } else {
        (DbModel { tracks: m.tracks, matches: insert_by_time(m.matches, rec) }, Ok(()))
    }
}

pub open spec fn get_track_spec(m: DbModel, id: u128) -> Result<TrackModel, StorageError> {
    if m.tracks.contains_key(id) {
        Ok(m.tracks[id])
    } else {
        Err(StorageError::NotFound)
    }
}

pub open spec fn get_matches_spec(m: DbModel, id: u128) -> Result<Seq<MatchData>, StorageError> {
    if m.tracks.contains_key(id) {
        Ok(of_track(m.matches, id, true))
    } else {
        Err(StorageError::NotFound)
    }
}

/// Deleting track `id` removes its metadata, its audio and every match
/// record of it.
pub open spec fn delete_track_spec(m: DbModel, id: u128) -> (DbModel, Result<(), StorageError>) {
    if !m.tracks.contains_key(id) {
        (m, Err(StorageError::NotFound))
    } else {
        (
            DbModel { tracks: m.tracks.remove(id), matches: of_track(m.matches, id, false) },
            Ok(()),
        )
    }
}

/// Catalog round trip: a track with non-empty audio added under a new id
/// reads back with the same metadata, content type and bytes; a track with
/// empty audio is refused and no row is created.
pub proof fn lemma_track_round_trip(m: DbModel, id: u128, t: TrackModel)
    ensures
        t.bytes.len() > 0 && !m.tracks.contains_key(id) ==> {
            &&& add_track_spec(m, id, t).1 is Ok
            &&& get_track_spec(add_track_spec(m, id, t).0, id) == Ok::<TrackModel, StorageError>(t)
        },
        t.bytes.len() == 0 ==> add_track_spec(m, id, t) == (m, Err::<(), StorageError>(
            StorageError::EmptyBytes,
        )),
{
}

/// A match for a track that the catalog does not hold, whether never added
/// or deleted, is refused with `UnknownTrack` and changes nothing.
pub proof fn lemma_match_needs_track(m: DbModel, id: u128, timestamp: i64, score: u8)
    ensures
        !m.tracks.contains_key(id) ==> add_match_spec(m, MatchData { id, timestamp, score }) == (
            m,
            Err::<(), StorageError>(StorageError::UnknownTrack),
        ),
        ({
            let d = delete_track_spec(m, id).0;
            add_match_spec(d, MatchData { id, timestamp, score }) == (d, Err::<(), StorageError>(
                StorageError::UnknownTrack,
            ))
        }),
{
}

/// Reading a track, or its history, by an id the catalog does not hold
/// fails with `NotFound`, an error of its own.
pub proof fn lemma_unknown_track_not_found(m: DbModel, id: u128)
    ensures
        !m.tracks.contains_key(id) ==> get_track_spec(m, id) == Err::<TrackModel, StorageError>(
            StorageError::NotFound,
        ),
        !m.tracks.contains_key(id) ==> get_matches_spec(m, id) == Err::<
            Seq<MatchData>,
            StorageError,
        >(StorageError::NotFound),
{
}

/// A track read back from the catalog.
#[derive(Debug, Clone, PartialEq, Eq)]
pub struct Track {
    pub id: u128,
    pub added_at: i64,
    pub kind: AudioKind,
    pub artist: String,
    pub title: String,
    pub content_type: String,
    pub bytes: Vec<u8>,
}

impl Track {
    pub open spec fn model(&self) -> TrackModel {
        TrackModel {
            added_at: self.added_at,
            kind: self.kind,
            artist: self.artist@,
            title: self.title@,
            content_type: self.content_type@,
            bytes: self.bytes@,
        }
    }
}

/// The catalog store. Metadata and audio rows share their track ids; the
/// match history refers to those ids only.
pub struct Db {
    metadata: MetadataStorage,
    audio: AudioStorage,
    matches: MatchesStorage,
}

impl View for Db {
    type V = DbModel;

    closed spec fn view(&self) -> DbModel {
        DbModel {
            tracks: Map::new(
                |id: u128| self.metadata@.contains_key(id),
                |id: u128|
                    TrackModel {
                        added_at: self.metadata@[id].date,
                        kind: self.metadata@[id].kind,
                        artist: self.metadata@[id].artist@,
                        title: self.metadata@[id].title@,
                        content_type: self.audio@[id].0,
                        bytes: self.audio@[id].1,
                    },
            ),
            matches: self.matches@,
        }
    }
}

impl Db {
    pub closed spec fn wf(&self) -> bool {
        &&& self.metadata.wf()
        &&& self.audio.wf()
        &&& self.matches.wf()
        &&& self.metadata@.dom() == self.audio@.dom()
        &&& self@.inv()
    }

    /// An empty catalog.
    pub fn new() -> (r: Self)
        ensures
            r.wf(),
            r@.inv(),
            r@.tracks == Map::<u128, TrackModel>::empty(),
            r@.matches == Seq::<MatchData>::empty(),
    {
        let r = Db {
            metadata: MetadataStorage::new(),
            audio: AudioStorage::new(),
            matches: MatchesStorage::new(),
        };
        assert(r@.tracks =~= Map::<u128, TrackModel>::empty());
        assert(r.metadata@.dom() =~= r.audio@.dom());
        r
    }

    /// Adds a track: its metadata row and its audio row, both or neither.
    pub fn add_track(
        &mut self,
        id: u128,
        kind: SuggestedSegmentContentKind,
        content_type: &str,
        artist: &str,
        title: &str,
        bytes: &Vec<u8>,
        added_at: i64,
    ) -> (r: Result<(), StorageError>)
        requires
            old(self).wf(),
        ensures
            final(self).wf(),
            final(self)@.inv(),
            (final(self)@, r) == add_track_spec(
                old(self)@,
                id,
                TrackModel {
                    added_at,
                    kind: audio_kind_of(kind),
                    artist: artist@,
                    title: title@,
                    content_type: content_type@,
                    bytes: bytes@,
                },
            ),
    {
        if bytes.len() == 0 {
            return Err(StorageError::EmptyBytes);
        }
        if self.metadata.get(id).is_ok() {
            return Err(StorageError::DuplicateId);
        }
        let ghost old_db = self@;
        let meta = Metadata::new(
            id,
            added_at,
            AudioKind::from_suggested(kind),
            artist.to_owned(),
            title.to_owned(),
        );
        let data = AudioData::new(id, content_type.to_owned(), crate::audio::copy_bytes(bytes));
        let r1 = self.metadata.insert(&meta);
        let r2 = self.audio.insert(&data);
        proof {
            assert(self.metadata@.dom() =~= self.audio@.dom());
            let t = TrackModel {
                added_at,
                kind: audio_kind_of(kind),
                artist: artist@,
                title: title@,
                content_type: content_type@,
                bytes: bytes@,
            };
            assert(self@.tracks =~= old_db.tracks.insert(id, t));
        }
        Ok(())
    }

    /// Records a sighting of track `id`; refused with `UnknownTrack` when
    /// the catalog does not hold that track.
    pub fn add_match(&mut self, id: u128, score: u8, timestamp: i64) -> (r: Result<
        (),
        StorageError,
    >)
        requires
            old(self).wf(),
        ensures
            final(self).wf(),
            final(self)@.inv(),
            (final(self)@, r) == add_match_spec(old(self)@, MatchData { id, timestamp, score }),
    {
        if self.metadata.get(id).is_err() {
            return Err(StorageError::UnknownTrack);
        }
        let ghost old_db = self@;
        let rec = MatchData::new(id, timestamp, score);
        let _ = self.matches.insert(&rec);
        proof {
            let s = old_db.matches;
            assert forall|i: int| 0 <= i < self@.matches.len() implies self@.tracks.contains_key(
                #[trigger] self@.matches[i].id,
            ) by {
                lemma_insert_by_time_members(s, rec);
                let x = self@.matches[i];
                assert(x == rec || s.contains(x));
                if x != rec {
                    let j = choose|j: int| 0 <= j < s.len() && s[j] == x;
                    assert(old_db.tracks.contains_key(s[j].id));
                }
            }
            assert(self@.tracks =~= old_db.tracks);
        }
        Ok(())
    }

    /// The track `id`; `NotFound` when the catalog does not hold it.
    pub fn get_track(&self, id: u128) -> (r: Result<Track, StorageError>)
        requires
            self.wf(),
        ensures
            match get_track_spec(self@, id) {
                Ok(t) => r matches Ok(x) && x.id == id && x.model() == t,
                Err(e) => r == Err::<Track, StorageError>(e),
            },
    {
        let meta = match self.metadata.get(id) {
            Ok(m) => m,
            Err(e) => return Err(e),
        };
        let data = match self.audio.get(id) {
            Ok(a) => a,
            Err(e) => return Err(e),
        };
        Ok(
            Track {
                id,
                added_at: meta.date,
                kind: meta.kind,
                artist: meta.artist,
                title: meta.title,
                content_type: data.format,
                bytes: data.bytes,
            },
        )
    }

    /// The match history of track `id`, newest first; `NotFound` when the
    /// catalog does not hold the track.
    pub fn get_matches(&self, id: u128) -> (r: Result<Vec<MatchData>, StorageError>)
        requires
            self.wf(),
        ensures
            match get_matches_spec(self@, id) {
                Ok(s) => r matches Ok(v) && v@ == s,
                Err(e) => r == Err::<Vec<MatchData>, StorageError>(e),
            },
            r matches Ok(v) ==> newest_first(v@),
    {
        if self.metadata.get(id).is_err() {
            return Err(StorageError::NotFound);
        }
        self.matches.get(id)
    }

    /// Deletes track `id` with its audio and its whole match history.
    pub fn delete_track(&mut self, id: u128) -> (r: Result<(), StorageError>)
        requires
            old(self).wf(),
        ensures
            final(self).wf(),
            final(self)@.inv(),
            (final(self)@, r) == delete_track_spec(old(self)@, id),
    {
        if self.metadata.get(id).is_err() {
            return Err(StorageError::NotFound);
        }
        let ghost old_db = self@;
        self.metadata.remove(id);
        self.audio.remove(id);
        self.matches.remove_track(id);
        proof {
            assert(self.metadata@.dom() =~= self.audio@.dom());
            assert(self@.tracks =~= old_db.tracks.remove(id));
            let s = old_db.matches;
            lemma_of_track_members(s, id, false);
            assert forall|i: int| 0 <= i < self@.matches.len() implies self@.tracks.contains_key(
                #[trigger] self@.matches[i].id,
            ) by {
                let x = self@.matches[i];
                assert(x == of_track(s, id, false)[i]);
                let j = choose|j: int| 0 <= j < s.len() && s[j] == x;
                assert(old_db.tracks.contains_key(s[j].id));
            }
        }
        Ok(())
    }
}

proof fn lemma_insert_by_time_members(s: Seq<MatchData>, m: MatchData)
    ensures
        forall|i: int|
            0 <= i < insert_by_time(s, m).len() ==> #[trigger] insert_by_time(s, m)[i] == m
                || s.contains(insert_by_time(s, m)[i]),
    decreases s.len(),
{
    if s.len() > 0 && s[0].timestamp >= m.timestamp {
        let t = s.drop_first();
        lemma_insert_by_time_members(t, m);
        assert forall|i: int| 0 <= i < insert_by_time(s, m).len() implies #[trigger] insert_by_time(
            s,
            m,
        )[i] == m || s.contains(insert_by_time(s, m)[i]) by {
            if i > 0 {
                let x = insert_by_time(t, m)[i - 1];
                assert(insert_by_time(s, m)[i] == x);
                if x != m {
                    let j = choose|j: int| 0 <= j < t.len() && t[j] == x;
                    assert(s[j + 1] == x);
                }
            } else {
                assert(s[0] == insert_by_time(s, m)[0]);
            }
        }
    } else if s.len() > 0 {
        assert forall|i: int| 0 <= i < insert_by_time(s, m).len() implies #[trigger] insert_by_time(
            s,
            m,
        )[i] == m || s.contains(insert_by_time(s, m)[i]) by {
            if i > 0 {
                assert(insert_by_time(s, m)[i] == s[i - 1]);
            }
        }
    }
}

} // verus!
