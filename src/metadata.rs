//! Track metadata rows, keyed by track id.
use crate::classifier::SuggestedSegmentContentKind;
use crate::error::StorageError;
use vstd::prelude::*;

verus! {

/// The content kind recorded for a catalogued track.
#[derive(Debug, Clone, Copy, PartialEq, Eq, Structural)]
pub enum AudioKind {
    Advertisement,
    Music,
    Talk,
    Unknown,
}

/// The stored name of each kind.
pub open spec fn kind_name(k: AudioKind) -> Seq<char> {
    match k {
        AudioKind::Advertisement => "advertisement"@,
        AudioKind::Music => "music"@,
        AudioKind::Talk => "talk"@,
        AudioKind::Unknown => "unknown"@,
    }
}

/// The kind whose stored name is `s`.
pub open spec fn kind_named(s: Seq<char>) -> Option<AudioKind> {
    if s == "advertisement"@ {
        Some(AudioKind::Advertisement)
    } else if s == "music"@ {
        Some(AudioKind::Music)
    } else if s == "talk"@ {
        Some(AudioKind::Talk)
    } else if s == "unknown"@ {
        Some(AudioKind::Unknown)
    } else {
        None
    }
}

/// The catalogue kind of a segment classification (an unclassified
/// segment is `Unknown`).
pub open spec fn audio_kind_of(k: SuggestedSegmentContentKind) -> AudioKind {
    match k {
        SuggestedSegmentContentKind::Unknown => AudioKind::Unknown,
        SuggestedSegmentContentKind::Talk => AudioKind::Talk,
        SuggestedSegmentContentKind::Advertisement => AudioKind::Advertisement,
        SuggestedSegmentContentKind::Music => AudioKind::Music,
    }
}

impl AudioKind {
    pub fn as_str(&self) -> (r: &'static str)
        ensures
            r@ == kind_name(*self),
    {
        match self {
            AudioKind::Advertisement => "advertisement",
            AudioKind::Music => "music",
            AudioKind::Talk => "talk",
            AudioKind::Unknown => "unknown",
        }
    }

    pub fn to_string(&self) -> (r: String)
        ensures
            r@ == kind_name(*self),
    {
        self.as_str().to_owned()
    }

    /// The kind with the stored name `value`; `None` for any other text.
    pub fn try_from(value: &str) -> (r: Option<AudioKind>)
        ensures
            r == kind_named(value@),
    {
        let v = value.to_owned();
        if v == "advertisement".to_owned() {
            Some(AudioKind::Advertisement)
        } else if v == "music".to_owned() {
            Some(AudioKind::Music)
        } else if v == "talk".to_owned() {
            Some(AudioKind::Talk)
        } else if v == "unknown".to_owned() {
            Some(AudioKind::Unknown)
        } else {
            None
        }
    }

    pub fn from_suggested(k: SuggestedSegmentContentKind) -> (r: AudioKind)
        ensures
            r == audio_kind_of(k),
    {
        match k {
            SuggestedSegmentContentKind::Unknown => AudioKind::Unknown,
            SuggestedSegmentContentKind::Talk => AudioKind::Talk,
            SuggestedSegmentContentKind::Advertisement => AudioKind::Advertisement,
            SuggestedSegmentContentKind::Music => AudioKind::Music,
        }
    }
}

/// Metadata of one track; `date` is when it was added, in milliseconds
/// since the Unix epoch.
#[derive(Debug, Clone, PartialEq, Eq)]
pub struct Metadata {
    pub id: u128,
    pub date: i64,
    pub kind: AudioKind,
    pub artist: String,
    pub title: String,
}

impl Metadata {
    pub fn new(id: u128, date: i64, kind: AudioKind, artist: String, title: String) -> (r: Self)
        ensures
            r == (Metadata { id, date, kind, artist, title }),
    {
        Self { id, date, kind, artist, title }
    }

    /// A copy equal to `self`.
    pub fn copy(&self) -> (r: Self)
        ensures
            r == *self,
    {
        Metadata {
            id: self.id,
            date: self.date,
            kind: self.kind,
            artist: self.artist.clone(),
            title: self.title.clone(),
        }
    }
}

/// Metadata rows with unique track ids.
pub struct MetadataStorage {
    rows: Vec<Metadata>,
    index: Ghost<Map<u128, Metadata>>,
}

impl View for MetadataStorage {
    type V = Map<u128, Metadata>;

    closed spec fn view(&self) -> Map<u128, Metadata> {
        self.index@
    }
}

impl MetadataStorage {
    /// Rows and map agree, and no two rows share an id.
    pub closed spec fn wf(&self) -> bool {
        &&& forall|i: int|
            0 <= i < self.rows@.len() ==> self.index@.contains_key(#[trigger] self.rows@[i].id)
                && self.index@[self.rows@[i].id] == self.rows@[i]
        &&& forall|id: u128|
            #[trigger] self.index@.contains_key(id) ==> exists|i: int|
                0 <= i < self.rows@.len() && #[trigger] self.rows@[i].id == id
        &&& forall|i: int, j: int|
            0 <= i < self.rows@.len() && 0 <= j < self.rows@.len() && i != j ==> #[trigger] self.rows@[i].id
                != #[trigger] self.rows@[j].id
        &&& forall|id: u128| #[trigger] self.index@.contains_key(id) ==> self.index@[id].id == id
    }

    pub fn new() -> (r: Self)
        ensures
            r.wf(),
            r@ == Map::<u128, Metadata>::empty(),
    {
        MetadataStorage { rows: Vec::new(), index: Ghost(Map::empty()) }
    }

    fn find(&self, id: u128) -> (r: Option<usize>)
        requires
            self.wf(),
        ensures
            match r {
                Some(i) => i < self.rows@.len() && self.rows@[i as int].id == id,
                None => !self@.contains_key(id),
            },
    {
        let mut i: usize = 0;
        while i < self.rows.len()
            invariant
                self.wf(),
                i <= self.rows@.len(),
                forall|k: int| 0 <= k < i ==> #[trigger] self.rows@[k].id != id,
            decreases self.rows@.len() - i,
        {
            if self.rows[i].id == id {
                return Some(i);
            }
            i = i + 1;
        }
        None
    }

    /// Adds a row; fails with `DuplicateId` when the id is taken.
    pub fn insert(&mut self, metadata: &Metadata) -> (r: Result<(), StorageError>)
        requires
            old(self).wf(),
        ensures
            final(self).wf(),
            old(self)@.contains_key(metadata.id) ==> r == Err::<(), StorageError>(
                StorageError::DuplicateId,
            ) && final(self)@ == old(self)@,
            !old(self)@.contains_key(metadata.id) ==> r is Ok && final(self)@ == old(self)@.insert(
                metadata.id,
                *metadata,
            ),
    {
        if self.find(metadata.id).is_some() {
            return Err(StorageError::DuplicateId);
        }
        let row = metadata.copy();
        self.rows.push(row);
        self.index = Ghost(self.index@.insert(metadata.id, *metadata));
        proof {
            let n = self.rows@.len() - 1;
            assert forall|id: u128| #[trigger] self.index@.contains_key(id) implies exists|i: int|
                0 <= i < self.rows@.len() && #[trigger] self.rows@[i].id == id by {
                if id == metadata.id {
                    assert(self.rows@[n].id == id);
                } else {
                    assert(old(self).index@.contains_key(id));
                    let i = choose|i: int|
                        0 <= i < old(self).rows@.len() && #[trigger] old(self).rows@[i].id == id;
                    assert(self.rows@[i].id == id);
                }
            }
        }
        Ok(())
    }

    /// The row of `id`; fails with `NotFound` when there is none.
    pub fn get(&self, id: u128) -> (r: Result<Metadata, StorageError>)
        requires
            self.wf(),
        ensures
            self@.contains_key(id) ==> r == Ok::<Metadata, StorageError>(self@[id]),
            !self@.contains_key(id) ==> r == Err::<Metadata, StorageError>(StorageError::NotFound),
    {
        match self.find(id) {
            Some(i) => Ok(self.rows[i].copy()),
            None => Err(StorageError::NotFound),
        }
    }

    /// Removes the row of `id`, if any; returns whether there was one.
    pub fn remove(&mut self, id: u128) -> (r: bool)
        requires
            old(self).wf(),
        ensures
            final(self).wf(),
            r == old(self)@.contains_key(id),
            final(self)@ == old(self)@.remove(id),
    {
        match self.find(id) {
            None => {
                assert(self.index@.remove(id) =~= self.index@);
                false
            },
            Some(i) => {
                let ghost old_rows = self.rows@;
                self.rows.remove(i);
                self.index = Ghost(self.index@.remove(id));
                proof {
                    assert forall|k: int| 0 <= k < self.rows@.len() implies #[trigger] self.rows@[k]
                        == old_rows[if k < i { k } else { k + 1 }] by {}
                    assert forall|a: u128| #[trigger] self.index@.contains_key(a) implies exists|
                        k: int,
                    | 0 <= k < self.rows@.len() && #[trigger] self.rows@[k].id == a by {
                        let j = choose|j: int|
                            0 <= j < old_rows.len() && #[trigger] old_rows[j].id == a;
                        if j < i {
                            assert(self.rows@[j].id == a);
                        } else {
                            assert(j != i);
                            assert(self.rows@[j - 1].id == a);
                        }
                    }
                    assert forall|p: int, q: int|
                        0 <= p < self.rows@.len() && 0 <= q < self.rows@.len() && p != q implies #[trigger] self.rows@[p].id
                        != #[trigger] self.rows@[q].id by {
                        let op = if p < i { p } else { p + 1 };
                        let oq = if q < i { q } else { q + 1 };
                        assert(old_rows[op] == self.rows@[p]);
                        assert(old_rows[oq] == self.rows@[q]);
                    }
                    assert forall|k: int| 0 <= k < self.rows@.len() implies self.index@.contains_key(
                        #[trigger] self.rows@[k].id,
                    ) && self.index@[self.rows@[k].id] == self.rows@[k] by {
                        let ok = if k < i { k } else { k + 1 };
                        assert(old_rows[ok] == self.rows@[k]);
                        assert(old_rows[ok].id != old_rows[i as int].id);
                    }
                }
                true
            },
        }
    }
}

} // verus!
