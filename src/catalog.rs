use vstd::prelude::*;
use crate::flags::{AddonContent, AddonFlags, content_bits, WORKSHOP};
use crate::hash::FileHash;
use crate::text::{opt_view, join_commas, views_of, copy_opt_string, copy_string};

verus! {

/// Descriptive metadata that the package parser reads from an addon.
pub struct AddonInfo {
    pub title: Option<String>,
    pub version: Option<String>,
    pub author: Option<String>,
    pub description: Option<String>,
    pub tagline: Option<String>,
    pub addon_url: Option<String>,
    pub content: AddonContent,
}

/// The title that a catalog record takes: the parsed title, else the file name.
pub open spec fn title_for(info: AddonInfo, filename: Seq<char>) -> Seq<char> {
    match info.title {
        Some(t) => t@,
        None => filename,
    }
}

/// The version that a catalog record takes: the parsed version, else empty.
pub open spec fn version_for(info: AddonInfo) -> Seq<char> {
    match info.version {
        Some(v) => v@,
        None => Seq::empty(),
    }
}

pub fn title_of(info: &AddonInfo, filename: &str) -> (r: String)
    ensures
        r@ == title_for(*info, filename@),
{
    match &info.title {
        Some(t) => copy_string(t),
        None => filename.to_string(),
    }
}

pub fn version_of(info: &AddonInfo) -> (r: String)
    ensures
        r@ == version_for(*info),
{
    match &info.version {
        Some(v) => copy_string(v),
        None => String::new(),
    }
}

/// Information about an addon file, as a new catalog record holds it.
pub struct AddonData {
    /// Name of the file the addon was found in.
    pub filename: String,
    /// When the file was last modified, in seconds since the Unix epoch.
    pub updated_at: i64,
    /// When the file was created, in seconds since the Unix epoch.
    pub created_at: i64,
    /// Size of the file in bytes.
    pub file_size: i64,
    pub flags: AddonFlags,
    pub title: String,
    pub author: Option<String>,
    pub version: String,
    /// A short description.
    pub tagline: Option<String>,
    /// Comma separated chapter ids, for a campaign.
    pub chapter_ids: Option<String>,
    /// Workshop id taken from the file name or the addon's url.
    pub workshop_id: Option<i64>,
}

/// One catalog row: an addon, keyed by the hash of its content.
pub struct AddonRecord {
    pub file_hash: FileHash,
    /// `None` when the file was not seen by the last scan.
    pub filename: Option<String>,
    pub updated_at: i64,
    pub created_at: i64,
    pub file_size: i64,
    pub flags: AddonFlags,
    pub title: String,
    pub author: Option<String>,
    pub version: String,
    pub tagline: Option<String>,
    pub chapter_ids: Option<String>,
    pub workshop_id: Option<i64>,
    /// The last scan session that confirmed the file.
    pub scan_id: Option<u32>,
}

pub struct RecordView {
    pub hash: Seq<u8>,
    pub filename: Option<Seq<char>>,
    pub updated_at: i64,
    pub created_at: i64,
    pub file_size: i64,
    pub flags: u32,
    pub title: Seq<char>,
    pub author: Option<Seq<char>>,
    pub version: Seq<char>,
    pub tagline: Option<Seq<char>>,
    pub chapter_ids: Option<Seq<char>>,
    pub workshop_id: Option<i64>,
    pub scan_id: Option<u32>,
}

impl View for AddonRecord {
    type V = RecordView;

    open spec fn view(&self) -> RecordView {
        RecordView {
            hash: self.file_hash@,
            filename: opt_view(self.filename),
            updated_at: self.updated_at,
            created_at: self.created_at,
            file_size: self.file_size,
            flags: self.flags.0,
            title: self.title@,
            author: opt_view(self.author),
            version: self.version@,
            tagline: opt_view(self.tagline),
            chapter_ids: opt_view(self.chapter_ids),
            workshop_id: self.workshop_id,
            scan_id: self.scan_id,
        }
    }
}

/// The record that inserting `d` under `hash` creates.
pub open spec fn new_record(d: AddonData, hash: Seq<u8>, scan_id: Option<u32>) -> RecordView {
    RecordView {
        hash,
        filename: Some(d.filename@),
        updated_at: d.updated_at,
        created_at: d.created_at,
        file_size: d.file_size,
        flags: d.flags.0,
        title: d.title@,
        author: opt_view(d.author),
        version: d.version@,
        tagline: opt_view(d.tagline),
        chapter_ids: opt_view(d.chapter_ids),
        workshop_id: d.workshop_id,
        scan_id,
    }
}

/// A record after a scan found its content under `filename`.
pub open spec fn refreshed(
    r: RecordView,
    filename: Seq<char>,
    title: Seq<char>,
    version: Seq<char>,
    flags: u32,
    scan_id: Option<u32>,
) -> RecordView {
    RecordView { filename: Some(filename), title, version, flags, scan_id, ..r }
}

/// Update of every record with hash `h`; the other records stay.
pub open spec fn update_hash(
    recs: Seq<RecordView>,
    h: Seq<u8>,
    filename: Seq<char>,
    title: Seq<char>,
    version: Seq<char>,
    flags: u32,
    scan_id: Option<u32>,
) -> Seq<RecordView> {
    recs.map_values(
        |r: RecordView|
            if r.hash == h {
                refreshed(r, filename, title, version, flags, scan_id)
            } else {
                r
            },
    )
}

/// Every record that the session did not confirm loses its file name.
pub open spec fn mark_missing(recs: Seq<RecordView>, session: u32) -> Seq<RecordView> {
    recs.map_values(
        |r: RecordView|
            if r.scan_id == Some(session) {
                r
            } else {
                RecordView { filename: None, ..r }
            },
    )
}

pub open spec fn has_hash(recs: Seq<RecordView>, h: Seq<u8>) -> bool {
    exists|i: int| 0 <= i < recs.len() && (#[trigger] recs[i]).hash == h
}

pub open spec fn hashes_unique(recs: Seq<RecordView>) -> bool {
    forall|i: int, j: int|
        0 <= i < recs.len() && 0 <= j < recs.len() && i != j ==> (#[trigger] recs[i]).hash != (
        #[trigger] recs[j]).hash
}

/// A user tag on the addon with the given hash.
pub struct AddonTag {
    pub hash: FileHash,
    pub tag: String,
}

pub open spec fn tag_view(t: AddonTag) -> (Seq<u8>, Seq<char>) {
    (t.hash@, t.tag@)
}

/// Metadata of a workshop item, as the workshop service reports it.
pub struct WorkshopItem {
    pub publishedfileid: i64,
    pub title: String,
    pub time_created: i64,
    pub time_updated: i64,
    pub file_size: i64,
    pub description: String,
    pub file_url: Option<String>,
    pub creator: String,
    pub tags: Vec<String>,
}

/// A stored workshop item.
pub struct WorkshopEntry {
    pub publishedfileid: i64,
    pub title: String,
    pub time_created: i64,
    pub time_updated: Option<i64>,
    pub file_size: i64,
    pub description: String,
    pub file_url: Option<String>,
    pub creator_id: String,
    /// Comma separated tags.
    pub tags: String,
    /// `WORKSHOP` is set while the item has a file in the workshop folder.
    pub flags: AddonFlags,
}

pub struct WorkshopView {
    pub id: i64,
    pub title: Seq<char>,
    pub time_created: i64,
    pub time_updated: Option<i64>,
    pub file_size: i64,
    pub description: Seq<char>,
    pub file_url: Option<Seq<char>>,
    pub creator_id: Seq<char>,
    pub tags: Seq<char>,
    pub flags: u32,
}

impl View for WorkshopEntry {
    type V = WorkshopView;

    open spec fn view(&self) -> WorkshopView {
        WorkshopView {
            id: self.publishedfileid,
            title: self.title@,
            time_created: self.time_created,
            time_updated: self.time_updated,
            file_size: self.file_size,
            description: self.description@,
            file_url: opt_view(self.file_url),
            creator_id: self.creator_id@,
            tags: self.tags@,
            flags: self.flags.0,
        }
    }
}

/// The stored form of a fetched item; it is not yet marked as in the folder.
pub open spec fn entry_of(item: WorkshopItem) -> WorkshopView {
    WorkshopView {
        id: item.publishedfileid,
        title: item.title@,
        time_created: item.time_created,
        time_updated: Some(item.time_updated),
        file_size: item.file_size,
        description: item.description@,
        file_url: opt_view(item.file_url),
        creator_id: item.creator@,
        tags: join_commas(views_of(item.tags@)),
        flags: 0,
    }
}

pub open spec fn has_id(ws: Seq<WorkshopView>, id: i64) -> bool {
    exists|i: int| 0 <= i < ws.len() && (#[trigger] ws[i]).id == id
}

/// Insert or replace one workshop item, by id.
pub open spec fn upsert(ws: Seq<WorkshopView>, e: WorkshopView) -> Seq<WorkshopView> {
    if has_id(ws, e.id) {
        ws.map_values(|w: WorkshopView| if w.id == e.id { e } else { w })
    } else {
        ws.push(e)
    }
}

pub open spec fn upsert_all(ws: Seq<WorkshopView>, es: Seq<WorkshopView>) -> Seq<WorkshopView>
    decreases es.len(),
{
    if es.len() == 0 {
        ws
    } else {
        upsert(upsert_all(ws, es.drop_last()), es.last())
    }
}

/// Presence in the workshop folder is set for exactly the given ids.
pub open spec fn mark_present(ws: Seq<WorkshopView>, ids: Seq<i64>) -> Seq<WorkshopView> {
    ws.map_values(
        |w: WorkshopView|
            WorkshopView {
                flags: if ids.contains(w.id) {
                    (w.flags & !WORKSHOP) | WORKSHOP
                } else {
                    w.flags & !WORKSHOP
                },
                ..w
            },
    )
}

pub open spec fn ids_unique(ws: Seq<WorkshopView>) -> bool {
    forall|i: int, j: int|
        0 <= i < ws.len() && 0 <= j < ws.len() && i != j ==> (#[trigger] ws[i]).id != (
        #[trigger] ws[j]).id
}

/// Why the catalog refused a write.
#[derive(Clone, Copy, Debug, PartialEq, Eq, Structural)]
pub enum StoreError {
    /// A record with this content hash exists already.
    DuplicateHash,
    /// The addon already has this tag.
    DuplicateTag,
}

/// The catalog: addon records, their tags, and workshop items.
pub struct AddonStorage {
    pub records: Vec<AddonRecord>,
    pub tags: Vec<AddonTag>,
    pub workshop: Vec<WorkshopEntry>,
}

impl AddonStorage {
    pub open spec fn recs(&self) -> Seq<RecordView> {
        self.records@.map_values(|r: AddonRecord| r@)
    }

    pub open spec fn tag_set(&self) -> Seq<(Seq<u8>, Seq<char>)> {
        self.tags@.map_values(|t: AddonTag| tag_view(t))
    }

    pub open spec fn items(&self) -> Seq<WorkshopView> {
        self.workshop@.map_values(|w: WorkshopEntry| w@)
    }

    /// Content hashes identify records, and ids identify workshop items.
    pub open spec fn wf(&self) -> bool {
        hashes_unique(self.recs()) && ids_unique(self.items())
    }

    pub fn new() -> (r: AddonStorage)
        ensures
            r.wf(),
            r.recs().len() == 0,
            r.tag_set().len() == 0,
            r.items().len() == 0,
    {
        AddonStorage { records: Vec::new(), tags: Vec::new(), workshop: Vec::new() }
    }

    /// Index of the record with this content hash.
    pub fn find_hash(&self, hash: &FileHash) -> (r: Option<usize>)
        ensures
            r matches Some(i) ==> i < self.recs().len() && self.recs()[i as int].hash == hash@,
            r is None <==> !has_hash(self.recs(), hash@),
    {
        let mut i: usize = 0;
        while i < self.records.len()
            invariant
                i <= self.records.len(),
                forall|j: int| 0 <= j < i ==> self.recs()[j].hash != hash@,
            decreases self.records.len() - i,
        {
            if self.records[i].file_hash.same_as(hash) {
                return Some(i);
            }
            i = i + 1;
        }
        None
    }

    /// The first record whose file has this name.
    pub fn get_by_filename(&self, filename: &str) -> (r: Option<&AddonRecord>)
        ensures
            r matches Some(rec) ==> exists|i: int|
                0 <= i < self.recs().len() && self.records@[i] == *rec && (forall|j: int|
                    0 <= j < i ==> self.recs()[j].filename != Some(filename@))
                    && rec@.filename == Some(filename@),
            r is None <==> forall|i: int|
                0 <= i < self.recs().len() ==> self.recs()[i].filename != Some(filename@),
    {
        let mut i: usize = 0;
        while i < self.records.len()
            invariant
                i <= self.records.len(),
                forall|j: int| 0 <= j < i ==> self.recs()[j].filename != Some(filename@),
            decreases self.records.len() - i,
        {
            if crate::text::same_opt_text(&self.records[i].filename, filename) {
                assert(self.recs()[i as int].filename == Some(filename@));
                return Some(&self.records[i]);
            }
            i = i + 1;
        }
        None
    }

    /// Finds the record with this content hash and gives it the new file name,
    /// title, version, flags and session. Returns whether such a record exists.
    pub fn update_entry_by_hash(
        &mut self,
        hash: &FileHash,
        new_filename: &str,
        info: &AddonInfo,
        scan_id: Option<u32>,
    ) -> (r: bool)
        requires
            old(self).wf(),
        ensures
            final(self).wf(),
            r == has_hash(old(self).recs(), hash@),
            final(self).recs() == update_hash(
                old(self).recs(),
                hash@,
                new_filename@,
                title_for(*info, new_filename@),
                version_for(*info),
                content_bits(info.content),
                scan_id,
            ),
            final(self).tag_set() == old(self).tag_set(),
            final(self).items() == old(self).items(),
    {
        match self.find_hash(hash) {
            None => {
                proof {
                    assert(self.recs() =~= update_hash(
                        self.recs(),
                        hash@,
                        new_filename@,
                        title_for(*info, new_filename@),
                        version_for(*info),
                        content_bits(info.content),
                        scan_id,
                    ));
                }
                false
            },
            Some(i) => {
                let title = title_of(info, new_filename);
                let version = version_of(info);
                let flags = AddonFlags::from_content(&info.content);
                self.refresh_at(i, new_filename.to_string(), title, version, flags, scan_id);
                true
            },
        }
    }

    /// Sets the file name, title, version, flags and session of record `i`.
    fn refresh_at(
        &mut self,
        i: usize,
        filename: String,
        title: String,
        version: String,
        flags: AddonFlags,
        scan_id: Option<u32>,
    )
        requires
            old(self).wf(),
            i < old(self).recs().len(),
        ensures
            final(self).wf(),
            final(self).recs() == update_hash(
                old(self).recs(),
                old(self).recs()[i as int].hash,
                filename@,
                title@,
                version@,
                flags.0,
                scan_id,
            ),
            final(self).tag_set() == old(self).tag_set(),
            final(self).items() == old(self).items(),
    {
        let ghost before = self.recs();
        let mut rec = self.records.remove(i);
        rec.filename = Some(filename);
        rec.title = title;
        rec.version = version;
        rec.flags = flags;
        rec.scan_id = scan_id;
        self.records.insert(i, rec);
        proof {
            let h = before[i as int].hash;
            let expected = update_hash(before, h, filename@, title@, version@, flags.0, scan_id);
            assert forall|j: int| 0 <= j < before.len() implies self.recs()[j] == expected[j] by {
                if j != i {
                    assert(before[j].hash != h);
                }
            }
            assert(self.recs() =~= expected);
        }
    }

    /// Sets only the session of record `i`.
    pub fn confirm_at(&mut self, i: usize, scan_id: Option<u32>)
        requires
            old(self).wf(),
            i < old(self).recs().len(),
        ensures
            final(self).wf(),
            final(self).recs() == old(self).recs().update(
                i as int,
                RecordView { scan_id, ..old(self).recs()[i as int] },
            ),
            final(self).tag_set() == old(self).tag_set(),
            final(self).items() == old(self).items(),
    {
        let ghost before = self.recs();
        let mut rec = self.records.remove(i);
        rec.scan_id = scan_id;
        self.records.insert(i, rec);
        proof {
            assert(self.recs() =~= before.update(i as int, RecordView { scan_id, ..before[i as int] }));
        }
    }

    /// Adds a new record; a record with the same hash must not exist.
    pub fn add_entry(&mut self, addon: &AddonData, scan_id: Option<u32>, hash: FileHash) -> (r:
        Result<(), StoreError>)
        requires
            old(self).wf(),
        ensures
            final(self).wf(),
            r is Err <==> has_hash(old(self).recs(), hash@),
            r is Err ==> r == Err::<(), StoreError>(StoreError::DuplicateHash) && final(self).recs()
                == old(self).recs(),
            r is Ok ==> final(self).recs() == old(self).recs().push(
                new_record(*addon, hash@, scan_id),
            ),
            final(self).tag_set() == old(self).tag_set(),
            final(self).items() == old(self).items(),
    {
        if self.find_hash(&hash).is_some() {
            return Err(StoreError::DuplicateHash);
        }
        let ghost before = self.recs();
        let rec = AddonRecord {
            file_hash: hash,
            filename: Some(copy_string(&addon.filename)),
            updated_at: addon.updated_at,
            created_at: addon.created_at,
            file_size: addon.file_size,
            flags: addon.flags,
            title: copy_string(&addon.title),
            author: copy_opt_string(&addon.author),
            version: copy_string(&addon.version),
            tagline: copy_opt_string(&addon.tagline),
            chapter_ids: copy_opt_string(&addon.chapter_ids),
            workshop_id: addon.workshop_id,
            scan_id,
        };
        self.records.push(rec);
        proof {
            assert(self.recs() =~= before.push(new_record(*addon, hash@, scan_id)));
        }
        Ok(())
    }

    /// Puts back a saved record; a record with the same hash must not exist.
    pub fn restore_record(&mut self, rec: AddonRecord) -> (r: Result<(), StoreError>)
        requires
            old(self).wf(),
        ensures
            final(self).wf(),
            r is Err <==> has_hash(old(self).recs(), rec@.hash),
            r is Err ==> r == Err::<(), StoreError>(StoreError::DuplicateHash) && final(self).recs()
                == old(self).recs(),
            r is Ok ==> final(self).recs() == old(self).recs().push(rec@),
            final(self).tag_set() == old(self).tag_set(),
            final(self).items() == old(self).items(),
    {
        if self.find_hash(&rec.file_hash).is_some() {
            return Err(StoreError::DuplicateHash);
        }
        let ghost before = self.recs();
        let ghost v = rec@;
        self.records.push(rec);
        proof {
            assert(self.recs() =~= before.push(v));
        }
        Ok(())
    }

    /// Clears the file name of every record that session `id` did not confirm.
    /// Run once, at the end of a scan.
    pub fn scan_mark_missing(&mut self, id: u32)
        requires
            old(self).wf(),
        ensures
            final(self).wf(),
            final(self).recs() == mark_missing(old(self).recs(), id),
            final(self).tag_set() == old(self).tag_set(),
            final(self).items() == old(self).items(),
    {
        let ghost before = self.recs();
        let mut i: usize = 0;
        while i < self.records.len()
            invariant
                i <= self.records.len(),
                self.records.len() == before.len(),
                forall|j: int| 0 <= j < i ==> self.recs()[j] == mark_missing(before, id)[j],
                forall|j: int| i <= j < before.len() ==> self.recs()[j] == before[j],
                self.tag_set() == old(self).tag_set(),
                self.items() == old(self).items(),
            decreases self.records.len() - i,
        {
            if self.records[i].scan_id != Some(id) {
                let mut rec = self.records.remove(i);
                rec.filename = None;
                self.records.insert(i, rec);
            }
            proof {
                assert forall|j: int| 0 <= j < i + 1 implies self.recs()[j] == mark_missing(before, id)[j] by {
                }
            }
            i = i + 1;
        }
        proof {
            assert(self.recs() =~= mark_missing(before, id));
            assert forall|a: int, b: int|
                0 <= a < self.recs().len() && 0 <= b < self.recs().len() && a != b implies
                (#[trigger] self.recs()[a]).hash != (#[trigger] self.recs()[b]).hash by {
                assert(before[a].hash != before[b].hash);
            }
        }
    }
}

} // verus!
