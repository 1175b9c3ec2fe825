use vstd::prelude::*;
use crate::catalog::{AddonRecord, AddonStorage, AddonTag, RecordView, StoreError, WorkshopView, tag_view, hashes_unique};
use crate::hash::FileHash;
use crate::text::{copy_string, copy_opt_string, same_text};
use crate::workshop::is_present;

verus! {

/// Whether a record sits under one of the given file names.
pub open spec fn named_in(r: RecordView, names: Seq<Seq<char>>) -> bool {
    match r.filename {
        Some(f) => names.contains(f),
        None => false,
    }
}

/// How many workshop items are marked as present in the workshop folder.
pub open spec fn present_count(ws: Seq<WorkshopView>) -> nat
    decreases ws.len(),
{
    if ws.len() == 0 {
        0
    } else {
        present_count(ws.drop_last()) + if is_present(ws.last()) {
            1nat
        } else {
            0nat
        }
    }
}

impl AddonRecord {
    /// A copy of the record.
    pub fn duplicate(&self) -> (r: AddonRecord)
        ensures
            r@ == self@,
    {
        AddonRecord {
            file_hash: self.file_hash.duplicate(),
            filename: copy_opt_string(&self.filename),
            updated_at: self.updated_at,
            created_at: self.created_at,
            file_size: self.file_size,
            flags: self.flags,
            title: copy_string(&self.title),
            author: copy_opt_string(&self.author),
            version: copy_string(&self.version),
            tagline: copy_opt_string(&self.tagline),
            chapter_ids: copy_opt_string(&self.chapter_ids),
            workshop_id: self.workshop_id,
            scan_id: self.scan_id,
        }
    }
}

fn names_contain(names: &Vec<String>, name: &str) -> (r: bool)
    ensures
        r == names@.map_values(|s: String| s@).contains(name@),
{
    let ghost all = names@.map_values(|s: String| s@);
    let mut i: usize = 0;
    while i < names.len()
        invariant
            i <= names.len(),
            all == names@.map_values(|s: String| s@),
            forall|j: int| 0 <= j < i ==> all[j] != name@,
        decreases names.len() - i,
    {
        if same_text(names[i].as_str(), name) {
            assert(all[i as int] == name@);
            return true;
        }
        i = i + 1;
    }
    false
}

impl AddonStorage {
    /// Tags the addon with this hash; the same tag twice is refused.
    pub fn add_tag(&mut self, hash: FileHash, tag: String) -> (r: Result<(), StoreError>)
        requires
            old(self).wf(),
        ensures
            final(self).wf(),
            r is Err <==> old(self).tag_set().contains((hash@, tag@)),
            r is Err ==> r == Err::<(), StoreError>(StoreError::DuplicateTag) && final(self).tag_set() == old(self).tag_set(),
            r is Ok ==> final(self).tag_set() == old(self).tag_set().push((hash@, tag@)),
            final(self).recs() == old(self).recs(),
            final(self).items() == old(self).items(),
    {
        let mut i: usize = 0;
        while i < self.tags.len()
            invariant
                i <= self.tags.len(),
                forall|j: int| 0 <= j < i ==> self.tag_set()[j] != (hash@, tag@),
                self.wf(),
                self.tag_set() == old(self).tag_set(),
                self.recs() == old(self).recs(),
                self.items() == old(self).items(),
            decreases self.tags.len() - i,
        {
            if self.tags[i].hash.same_as(&hash) && same_text(self.tags[i].tag.as_str(), tag.as_str()) {
                assert(self.tag_set()[i as int] == (hash@, tag@));
                return Err(StoreError::DuplicateTag);
            }
            i = i + 1;
        }
        let ghost before = self.tag_set();
        let ghost entry = (hash@, tag@);
        self.tags.push(AddonTag { hash, tag });
        proof {
            assert(self.tag_set() =~= before.push(entry));
        }
        Ok(())
    }

    /// Removes the tag from the addon with this hash.
    pub fn del_tag(&mut self, hash: &FileHash, tag: &str)
        requires
            old(self).wf(),
        ensures
            final(self).wf(),
            final(self).tag_set() == old(self).tag_set().filter(|t: (Seq<u8>, Seq<char>)| t != (hash@, tag@)),
            final(self).recs() == old(self).recs(),
            final(self).items() == old(self).items(),
    {
        let ghost before = self.tag_set();
        let mut kept: Vec<AddonTag> = Vec::new();
        let mut i: usize = 0;
        while i < self.tags.len()
            invariant
                i <= self.tags.len(),
                before == self.tag_set(),
                kept@.map_values(|t: AddonTag| tag_view(t)) == before.take(i as int).filter(|t: (Seq<u8>, Seq<char>)| t != (hash@, tag@)),
            decreases self.tags.len() - i,
        {
            let ghost pre = kept@.map_values(|t: AddonTag| tag_view(t));
            proof {
                assert(before.take(i as int + 1) =~= before.take(i as int).push(before[i as int]));
                before.take(i as int).lemma_filter_push(before[i as int], |t: (Seq<u8>, Seq<char>)| t != (hash@, tag@));
            }
            let t = &self.tags[i];
            assert(before[i as int] == tag_view(*t));
            if !(t.hash.same_as(hash) && same_text(t.tag.as_str(), tag)) {
                kept.push(AddonTag { hash: t.hash.duplicate(), tag: copy_string(&t.tag) });
                proof {
                    assert(before[i as int] != (hash@, tag@));
                    assert(kept@.map_values(|t: AddonTag| tag_view(t)) =~= pre.push(before[i as int]));
                }
            } else {
                assert(before[i as int] == (hash@, tag@));
            }
            i = i + 1;
        }
        proof {
            assert(before.take(i as int) =~= before);
        }
        self.tags = kept;
    }

    /// Deletes the records of the given file names.
    pub fn delete_filenames(&mut self, filenames: &Vec<String>)
        requires
            old(self).wf(),
        ensures
            final(self).wf(),
            final(self).recs() == old(self).recs().filter(
                |r: RecordView| !named_in(r, filenames@.map_values(|s: String| s@)),
            ),
            final(self).tag_set() == old(self).tag_set(),
            final(self).items() == old(self).items(),
    {
        let ghost before = self.recs();
        let ghost names = filenames@.map_values(|s: String| s@);
        let mut kept: Vec<AddonRecord> = Vec::new();
        let mut i: usize = 0;
        while i < self.records.len()
            invariant
                i <= self.records.len(),
                before == self.recs(),
                hashes_unique(before),
                names == filenames@.map_values(|s: String| s@),
                kept@.map_values(|r: AddonRecord| r@) == before.take(i as int).filter(|r: RecordView| !named_in(r, filenames@.map_values(|s: String| s@))),
                hashes_unique(kept@.map_values(|r: AddonRecord| r@)),
                forall|a: int|
                    0 <= a < kept@.len() ==> exists|j: int| 0 <= j < i && before[j].hash == (#[trigger] kept@[a])@.hash,
            decreases self.records.len() - i,
        {
            let ghost pre = kept@.map_values(|r: AddonRecord| r@);
            proof {
                assert(before.take(i as int + 1) =~= before.take(i as int).push(before[i as int]));
                before.take(i as int).lemma_filter_push(before[i as int], |r: RecordView| !named_in(r, filenames@.map_values(|s: String| s@)));
            }
            let r = &self.records[i];
            let drop = match &r.filename {
                Some(f) => names_contain(filenames, f.as_str()),
                None => false,
            };
            assert(before[i as int] == r@);
            assert(drop == named_in(r@, names));
            if !drop {
                let copy = r.duplicate();
                kept.push(copy);
                proof {
                    let now = kept@.map_values(|r: AddonRecord| r@);
                    assert(now =~= pre.push(before[i as int]));
                    assert forall|a: int, b: int|
                        0 <= a < now.len() && 0 <= b < now.len() && a != b implies (#[trigger] now[a]).hash != (
                        #[trigger] now[b]).hash by {
                        if a < pre.len() && b < pre.len() {
                        } else if a < pre.len() {
                            let j = choose|j: int| 0 <= j < i && before[j].hash == (#[trigger] kept@[a])@.hash;
                            assert(before[j].hash != before[i as int].hash);
                        } else {
                            let j = choose|j: int| 0 <= j < i && before[j].hash == (#[trigger] kept@[b])@.hash;
                            assert(before[j].hash != before[i as int].hash);
                        }
                    }
                    assert forall|a: int| 0 <= a < kept@.len() implies exists|j: int|
                        0 <= j < i + 1 && before[j].hash == (#[trigger] kept@[a])@.hash by {
                        if a < pre.len() {
                            let j = choose|j: int| 0 <= j < i && before[j].hash == (#[trigger] kept@[a])@.hash;
                            assert(0 <= j < i + 1 && before[j].hash == kept@[a]@.hash);
                        } else {
                            assert(before[i as int].hash == kept@[a]@.hash);
                        }
                    }
                }
            }
            i = i + 1;
        }
        proof {
            assert(before.take(i as int) =~= before);
        }
        self.records = kept;
    }

    /// The number of records, and of workshop items present in the workshop folder.
    pub fn counts(&self) -> (r: (usize, usize))
        ensures
            r.0 == self.recs().len(),
            r.1 == present_count(self.items()),
    {
        let mut present: usize = 0;
        let mut i: usize = 0;
        while i < self.workshop.len()
            invariant
                i <= self.workshop.len(),
                present == present_count(self.items().take(i as int)),
                present <= i,
            decreases self.workshop.len() - i,
        {
            proof {
                assert(self.items().take(i as int + 1).drop_last() =~= self.items().take(i as int));
            }
            if self.workshop[i].flags.contains(crate::flags::WORKSHOP) {
                present = present + 1;
            }
            i = i + 1;
        }
        proof {
            assert(self.items().take(i as int) =~= self.items());
        }
        (self.records.len(), present)
    }
}

} // verus!
