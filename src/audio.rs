//! Audio rows: each track's content type and raw bytes, keyed by track id.
use crate::error::StorageError;
use vstd::prelude::*;

verus! {

/// The audio of one track: its content type (`format`) and its bytes.
#[derive(Debug, Clone, PartialEq, Eq)]
pub struct AudioData {
    pub id: u128,
    pub format: String,
    pub bytes: Vec<u8>,
}

/// Content type and bytes of a track's audio.
pub open spec fn audio_view(a: AudioData) -> (Seq<char>, Seq<u8>) {
    (a.format@, a.bytes@)
}

/// A copy of `b`.
pub fn copy_bytes(b: &Vec<u8>) -> (r: Vec<u8>)
    ensures
        r@ == b@,
{
    let mut out: Vec<u8> = Vec::new();
    let mut i: usize = 0;
    while i < b.len()
        invariant
            i <= b@.len(),
            out@ == b@.subrange(0, i as int),
        decreases b@.len() - i,
    {
        out.push(b[i]);
        i = i + 1;
        assert(out@ =~= b@.subrange(0, i as int));
    }
    assert(b@.subrange(0, b@.len() as int) =~= b@);
    out
}

impl AudioData {
    pub fn new(id: u128, format: String, bytes: Vec<u8>) -> (r: Self)
        ensures
            r.id == id,
            r.format == format,
            r.bytes == bytes,
    {
        Self { id, format, bytes }
    }

    /// A copy with the same id, content type and bytes.
    pub fn copy(&self) -> (r: Self)
        ensures
            r.id == self.id,
            audio_view(r) == audio_view(*self),
    {
        AudioData { id: self.id, format: self.format.clone(), bytes: copy_bytes(&self.bytes) }
    }
}

/// Audio rows with unique track ids.
pub struct AudioStorage {
    rows: Vec<AudioData>,
    index: Ghost<Map<u128, (Seq<char>, Seq<u8>)>>,
}

impl View for AudioStorage {
    type V = Map<u128, (Seq<char>, Seq<u8>)>;

    closed spec fn view(&self) -> Map<u128, (Seq<char>, Seq<u8>)> {
        self.index@
    }
}

impl AudioStorage {
    /// Rows and map agree, and no two rows share an id.
    pub closed spec fn wf(&self) -> bool {
        &&& forall|i: int|
            0 <= i < self.rows@.len() ==> self.index@.contains_key(#[trigger] self.rows@[i].id)
                && self.index@[self.rows@[i].id] == audio_view(self.rows@[i])
        &&& forall|id: u128|
            #[trigger] self.index@.contains_key(id) ==> exists|i: int|
                0 <= i < self.rows@.len() && #[trigger] self.rows@[i].id == id
        &&& forall|i: int, j: int|
            0 <= i < self.rows@.len() && 0 <= j < self.rows@.len() && i != j ==> #[trigger] self.rows@[i].id
                != #[trigger] self.rows@[j].id
    }

    pub fn new() -> (r: Self)
        ensures
            r.wf(),
            r@ == Map::<u128, (Seq<char>, Seq<u8>)>::empty(),
    {
        AudioStorage { rows: Vec::new(), index: Ghost(Map::empty()) }
    }

    fn find(&self, id: u128) -> (r: Option<usize>)
        requires
            self.wf(),
        ensures
            match r {
                Some(i) => i < self.rows@.len() && self.rows@[i as int].id == id,
                None => !self@.contains_key(id),
            },
    {
        let mut i: usize = 0;
        while i < self.rows.len()
            invariant
                self.wf(),
                i <= self.rows@.len(),
                forall|k: int| 0 <= k < i ==> #[trigger] self.rows@[k].id != id,
            decreases self.rows@.len() - i,
        {
            if self.rows[i].id == id {
                return Some(i);
            }
            i = i + 1;
        }
        None
    }

    /// Adds the audio of a track; fails with `EmptyBytes` when it holds no
    /// byte, else with `DuplicateId` when the id is taken. A refused insert
    /// leaves the rows as they were.
    pub fn insert(&mut self, data: &AudioData) -> (r: Result<(), StorageError>)
        requires
            old(self).wf(),
        ensures
            final(self).wf(),
            data.bytes@.len() == 0 ==> r == Err::<(), StorageError>(StorageError::EmptyBytes)
                && final(self)@ == old(self)@,
            data.bytes@.len() > 0 && old(self)@.contains_key(data.id) ==> r == Err::<
                (),
                StorageError,
            >(StorageError::DuplicateId) && final(self)@ == old(self)@,
            data.bytes@.len() > 0 && !old(self)@.contains_key(data.id) ==> r is Ok
                && final(self)@ == old(self)@.insert(data.id, audio_view(*data)),
    {
        if data.bytes.len() == 0 {
            return Err(StorageError::EmptyBytes);
        }
        if self.find(data.id).is_some() {
            return Err(StorageError::DuplicateId);
        }
        let row = data.copy();
        self.rows.push(row);
        self.index = Ghost(self.index@.insert(data.id, audio_view(*data)));
        proof {
            let n = self.rows@.len() - 1;
            assert forall|id: u128| #[trigger] self.index@.contains_key(id) implies exists|i: int|
                0 <= i < self.rows@.len() && #[trigger] self.rows@[i].id == id by {
                if id == data.id {
                    assert(self.rows@[n].id == id);
                } else {
                    assert(old(self).index@.contains_key(id));
                    let i = choose|i: int|
                        0 <= i < old(self).rows@.len() && #[trigger] old(self).rows@[i].id == id;
                    assert(self.rows@[i].id == id);
                }
            }
        }
        Ok(())
    }

    /// The audio of `id`; fails with `NotFound` when there is none.
    pub fn get(&self, id: u128) -> (r: Result<AudioData, StorageError>)
        requires
            self.wf(),
        ensures
            self@.contains_key(id) ==> (r matches Ok(a) && a.id == id && audio_view(a) == self@[id]),
            !self@.contains_key(id) ==> r == Err::<AudioData, StorageError>(StorageError::NotFound),
    {
        match self.find(id) {
            Some(i) => Ok(self.rows[i].copy()),
            None => Err(StorageError::NotFound),
        }
    }

    /// Removes the audio of `id`, if any; returns whether there was one.
    pub fn remove(&mut self, id: u128) -> (r: bool)
        requires
            old(self).wf(),
        ensures
            final(self).wf(),
            r == old(self)@.contains_key(id),
            final(self)@ == old(self)@.remove(id),
    {
        match self.find(id) {
            None => {
                assert(self.index@.remove(id) =~= self.index@);
                false
            },
            Some(i) => {
                let ghost old_rows = self.rows@;
                self.rows.remove(i);
                self.index = Ghost(self.index@.remove(id));
                proof {
                    assert forall|k: int| 0 <= k < self.rows@.len() implies #[trigger] self.rows@[k]
                        == old_rows[if k < i { k } else { k + 1 }] by {}
                    assert forall|a: u128| #[trigger] self.index@.contains_key(a) implies exists|
                        k: int,
                    | 0 <= k < self.rows@.len() && #[trigger] self.rows@[k].id == a by {
                        let j = choose|j: int|
                            0 <= j < old_rows.len() && #[trigger] old_rows[j].id == a;
                        if j < i {
                            assert(self.rows@[j].id == a);
                        } else {
                            assert(j != i);
                            assert(self.rows@[j - 1].id == a);
                        }
                    }
                    assert forall|p: int, q: int|
                        0 <= p < self.rows@.len() && 0 <= q < self.rows@.len() && p != q implies #[trigger] self.rows@[p].id
                        != #[trigger] self.rows@[q].id by {
                        let op = if p < i { p } else { p + 1 };
                        let oq = if q < i { q } else { q + 1 };
                        assert(old_rows[op] == self.rows@[p]);
                        assert(old_rows[oq] == self.rows@[q]);
                    }
                    assert forall|k: int| 0 <= k < self.rows@.len() implies self.index@.contains_key(
                        #[trigger] self.rows@[k].id,
                    ) && self.index@[self.rows@[k].id] == audio_view(self.rows@[k]) by {
                        let ok = if k < i { k } else { k + 1 };
                        assert(old_rows[ok] == self.rows@[k]);
                        assert(old_rows[ok].id != old_rows[i as int].id);
                    }
                }
                true
            },
        }
    }
}

} // verus!
