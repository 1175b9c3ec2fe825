use vstd::prelude::*;
use crate::flags::{AddonFlags, content_bits};
use crate::hash::FileHash;
use crate::catalog::{
    AddonData, AddonInfo, AddonStorage, RecordView, has_hash, update_hash, mark_missing, title_for,
    version_for, title_of, version_of,
};
use crate::ids::{find_workshop_id, workshop_id_for};
use crate::text::{opt_view, join_commas, views_of, copy_string, copy_opt_string, join_with_commas};

verus! {

/// What a worker found in one package file.
pub struct AddonFileData {
    pub filename: String,
    pub info: AddonInfo,
    /// Chapter ids of the campaign's cooperative mode, if any.
    pub chapter_ids: Option<Vec<String>>,
    pub hash: FileHash,
    /// When the file was last modified, in seconds since the Unix epoch.
    pub updated_at: i64,
    /// When the file was created, in seconds since the Unix epoch.
    pub created_at: i64,
    pub file_size: i64,
}

/// How a scanned file was reconciled with the catalog.
#[derive(Clone, Copy, Debug, PartialEq, Eq, Structural)]
pub enum ProcessResult {
    /// A record with the same hash existed; its details were updated.
    UpdatedByHash,
    /// No record had the hash: a new record was added.
    Added,
    /// A record with the same hash already held the same details.
    Unchanged,
}

pub open spec fn file_title(f: AddonFileData) -> Seq<char> {
    title_for(f.info, f.filename@)
}

pub open spec fn file_version(f: AddonFileData) -> Seq<char> {
    version_for(f.info)
}

pub open spec fn file_flags(f: AddonFileData) -> u32 {
    content_bits(f.info.content)
}

pub open spec fn file_workshop_id(f: AddonFileData) -> Option<i64> {
    workshop_id_for(f.filename@, opt_view(f.info.addon_url))
}

pub open spec fn file_chapters(f: AddonFileData) -> Option<Seq<char>> {
    match f.chapter_ids {
        Some(v) => Some(join_commas(views_of(v@))),
        None => None,
    }
}

/// The record that a new file creates.
pub open spec fn file_record(f: AddonFileData, s: u32) -> RecordView {
    RecordView {
        hash: f.hash@,
        filename: Some(f.filename@),
        updated_at: f.updated_at,
        created_at: f.created_at,
        file_size: f.file_size,
        flags: file_flags(f),
        title: file_title(f),
        author: opt_view(f.info.author),
        version: file_version(f),
        tagline: opt_view(f.info.tagline),
        chapter_ids: file_chapters(f),
        workshop_id: file_workshop_id(f),
        scan_id: Some(s),
    }
}

/// The record already holds what the file would write.
pub open spec fn is_unchanged(r: RecordView, f: AddonFileData) -> bool {
    &&& r.filename == Some(f.filename@)
    &&& r.title == file_title(f)
    &&& r.version == file_version(f)
    &&& r.flags == file_flags(f)
}

/// The catalog after one scanned file: the record with its hash takes its
/// name and details, or a new record is added.
pub open spec fn apply_file(recs: Seq<RecordView>, f: AddonFileData, s: u32) -> Seq<RecordView> {
    if has_hash(recs, f.hash@) {
        update_hash(recs, f.hash@, f.filename@, file_title(f), file_version(f), file_flags(f), Some(s))
    } else {
        recs.push(file_record(f, s))
    }
}

pub open spec fn outcome(recs: Seq<RecordView>, f: AddonFileData) -> ProcessResult {
    if has_hash(recs, f.hash@) {
        if exists|i: int|
            0 <= i < recs.len() && (#[trigger] recs[i]).hash == f.hash@ && is_unchanged(recs[i], f) {
            ProcessResult::Unchanged
        } else {
            ProcessResult::UpdatedByHash
        }
    } else {
        ProcessResult::Added
    }
}

/// The catalog after the files of one scan, in order.
pub open spec fn apply_files(recs: Seq<RecordView>, files: Seq<AddonFileData>, s: u32) -> Seq<
    RecordView,
>
    decreases files.len(),
{
    if files.len() == 0 {
        recs
    } else {
        apply_file(apply_files(recs, files.drop_last(), s), files.last(), s)
    }
}

/// The catalog after a whole scan: the files, then the records that the scan
/// did not confirm lose their file names.
pub open spec fn scan_pass(recs: Seq<RecordView>, files: Seq<AddonFileData>, s: u32) -> Seq<
    RecordView,
> {
    mark_missing(apply_files(recs, files, s), s)
}

/// The workshop id that the outcome reports: that of a new record only.
pub open spec fn new_entry_id(p: ProcessResult, f: AddonFileData) -> Option<i64> {
    if p == ProcessResult::Added {
        file_workshop_id(f)
    } else {
        None
    }
}

/// The data of a new record for a scanned file.
fn new_addon_data(file: &AddonFileData, workshop_id: Option<i64>) -> (r: AddonData)
    ensures
        crate::catalog::new_record(r, file.hash@, None) == (RecordView {
            workshop_id,
            scan_id: None,
            ..file_record(*file, 0)
        }),
{
    let chapter_ids = match &file.chapter_ids {
        Some(v) => Some(join_with_commas(v)),
        None => None,
    };
    AddonData {
        filename: copy_string(&file.filename),
        updated_at: file.updated_at,
        created_at: file.created_at,
        file_size: file.file_size,
        flags: AddonFlags::from_content(&file.info.content),
        title: title_of(&file.info, file.filename.as_str()),
        author: copy_opt_string(&file.info.author),
        version: version_of(&file.info),
        tagline: copy_opt_string(&file.info.tagline),
        chapter_ids,
        workshop_id,
    }
}

/// Reconciles one scanned file with the catalog. A record with the same
/// content hash takes the file's name and details (a rename or an update), or
/// is only confirmed for this session when it holds them already; a file with
/// a new hash becomes a new record. Returns the outcome and, for a new record,
/// its workshop id.
pub fn process_file(store: &mut AddonStorage, file: &AddonFileData, scan_id: u32) -> (r: (ProcessResult, Option<i64>))
    requires
        old(store).wf(),
    ensures
        final(store).wf(),
        final(store).recs() == apply_file(old(store).recs(), *file, scan_id),
        r.0 == outcome(old(store).recs(), *file),
        r.1 == new_entry_id(r.0, *file),
        final(store).tag_set() == old(store).tag_set(),
        final(store).items() == old(store).items(),
{
    let ghost before = store.recs();
    match store.find_hash(&file.hash) {
        Some(i) => {
            let title = title_of(&file.info, file.filename.as_str());
            let version = version_of(&file.info);
            let flags = AddonFlags::from_content(&file.info.content);
            let rec = &store.records[i];
            let same = crate::text::same_opt_text(&rec.filename, file.filename.as_str())
                && crate::text::same_text(rec.title.as_str(), title.as_str())
                && crate::text::same_text(rec.version.as_str(), version.as_str())
                && rec.flags.0 == flags.0;
            proof {
                assert forall|j: int| 0 <= j < before.len() && j != i implies before[j].hash != file.hash@ by {
                    assert(before[j].hash != before[i as int].hash);
                }
            }
            if same {
                store.confirm_at(i, Some(scan_id));
                proof {
                    let expected = apply_file(before, *file, scan_id);
                    assert(has_hash(before, file.hash@));
                    assert(store.recs() =~= expected);
                    assert(is_unchanged(before[i as int], *file));
                }
                (ProcessResult::Unchanged, None)
            } else {
                store.update_entry_by_hash(&file.hash, file.filename.as_str(), &file.info, Some(scan_id));
                proof {
                    assert(!is_unchanged(before[i as int], *file));
                    if exists|k: int|
                        0 <= k < before.len() && (#[trigger] before[k]).hash == file.hash@ && is_unchanged(before[k], *file) {
                        let k = choose|k: int|
                            0 <= k < before.len() && (#[trigger] before[k]).hash == file.hash@ && is_unchanged(before[k], *file);
                        assert(k == i);
                    }
                }
                (ProcessResult::UpdatedByHash, None)
            }
        },
        None => {
            let ws_id = find_workshop_id(file.filename.as_str(), &file.info);
            let data = new_addon_data(file, ws_id);
            let res = store.add_entry(&data, Some(scan_id), file.hash.duplicate());
            proof {
                assert(res is Ok);
                assert(crate::catalog::new_record(data, file.hash@, Some(scan_id)) == file_record(*file, scan_id));
            }
            (ProcessResult::Added, ws_id)
        },
    }
}

} // verus!

verus! {

/// No two files of a scan have the same content.
pub open spec fn distinct_hashes(files: Seq<AddonFileData>) -> bool {
    forall|a: int, b: int|
        0 <= a < files.len() && 0 <= b < files.len() && a != b ==> (#[trigger] files[a]).hash@ != (
        #[trigger] files[b]).hash@
}

/// The record as the scan of file `f` in session `s` leaves it.
pub open spec fn confirmed_by(r: RecordView, f: AddonFileData, s: u32) -> bool {
    is_unchanged(r, f) && r.scan_id == Some(s)
}

/// A record with the file's data, as of session `s`.
pub open spec fn refreshed_by(r: RecordView, f: AddonFileData, s: u32) -> RecordView {
    crate::catalog::refreshed(r, f.filename@, file_title(f), file_version(f), file_flags(f), Some(s))
}

/// The record without its session stamp.
pub open spec fn unstamped(r: RecordView) -> RecordView {
    RecordView { scan_id: None, ..r }
}

pub open spec fn all_unstamped(recs: Seq<RecordView>) -> Seq<RecordView> {
    recs.map_values(|r: RecordView| unstamped(r))
}

/// A record whose hash no file of the scan has is left as it was.
proof fn lemma_untouched(recs: Seq<RecordView>, files: Seq<AddonFileData>, s: u32, i: int)
    requires
        0 <= i < recs.len(),
        forall|k: int| 0 <= k < files.len() ==> (#[trigger] files[k]).hash@ != recs[i].hash,
    ensures
        apply_files(recs, files, s).len() >= recs.len(),
        apply_files(recs, files, s)[i] == recs[i],
    decreases files.len(),
{
    if files.len() > 0 {
        let init = files.drop_last();
        assert forall|k: int| 0 <= k < init.len() implies (#[trigger] init[k]).hash@ != recs[i].hash by {
            assert(init[k] == files[k]);
        }
        lemma_untouched(recs, init, s, i);
        assert(files.last() == files[files.len() - 1]);
    }
}

/// What a scan of files with distinct contents does to each record.
proof fn lemma_applied(recs: Seq<RecordView>, files: Seq<AddonFileData>, s: u32)
    requires
        crate::catalog::hashes_unique(recs),
        distinct_hashes(files),
    ensures
        crate::catalog::hashes_unique(apply_files(recs, files, s)),
        apply_files(recs, files, s).len() >= recs.len(),
        forall|i: int| 0 <= i < recs.len() ==> (#[trigger] apply_files(recs, files, s)[i]).hash == recs[i].hash,
        forall|k: int| 0 <= k < files.len() ==> has_hash(apply_files(recs, files, s), (#[trigger] files[k]).hash@),
        forall|i: int, k: int|
            0 <= i < recs.len() && 0 <= k < files.len() && (#[trigger] apply_files(recs, files, s)[i]).hash
                == (#[trigger] files[k]).hash@ ==> apply_files(recs, files, s)[i] == refreshed_by(recs[i], files[k], s),
        forall|i: int, k: int|
            0 <= i < apply_files(recs, files, s).len() && 0 <= k < files.len() && (#[trigger] apply_files(
                recs,
                files,
                s,
            )[i]).hash == (#[trigger] files[k]).hash@ ==> confirmed_by(apply_files(recs, files, s)[i], files[k], s),
        forall|i: int|
            0 <= i < apply_files(recs, files, s).len() && (forall|k: int|
                0 <= k < files.len() ==> (#[trigger] files[k]).hash@ != apply_files(recs, files, s)[i].hash)
                ==> i < recs.len() && (#[trigger] apply_files(recs, files, s)[i]) == recs[i],
        (forall|k: int| 0 <= k < files.len() ==> has_hash(recs, (#[trigger] files[k]).hash@)) ==> apply_files(
            recs,
            files,
            s,
        ).len() == recs.len(),
    decreases files.len(),
{
    if files.len() > 0 {
        let init = files.drop_last();
        let f = files.last();
        let n = files.len() - 1;
        assert(f == files[n]);
        assert forall|a: int, b: int|
            0 <= a < init.len() && 0 <= b < init.len() && a != b implies (#[trigger] init[a]).hash@ != (
            #[trigger] init[b]).hash@ by {
            assert(init[a] == files[a] && init[b] == files[b]);
        }
        lemma_applied(recs, init, s);
        let p = apply_files(recs, init, s);
        let r = apply_files(recs, files, s);
        assert(r == apply_file(p, f, s));
        assert forall|k: int| 0 <= k < init.len() implies #[trigger] init[k] == files[k] by {}
        if has_hash(p, f.hash@) {
            assert(r.len() == p.len());
            assert forall|i: int| 0 <= i < r.len() implies #[trigger] r[i] == (if p[i].hash == f.hash@ {
                refreshed_by(p[i], f, s)
            } else {
                p[i]
            }) by {}
            assert forall|a: int, b: int|
                0 <= a < r.len() && 0 <= b < r.len() && a != b implies (#[trigger] r[a]).hash != (
                #[trigger] r[b]).hash by {
                assert(p[a].hash != p[b].hash);
            }
            assert forall|k: int| 0 <= k < files.len() implies has_hash(r, (#[trigger] files[k]).hash@) by {
                if k < n {
                    assert(has_hash(p, init[k].hash@));
                    let j = choose|j: int| 0 <= j < p.len() && (#[trigger] p[j]).hash == init[k].hash@;
                    assert(r[j].hash == files[k].hash@);
                } else {
                    let j = choose|j: int| 0 <= j < p.len() && (#[trigger] p[j]).hash == f.hash@;
                    assert(r[j].hash == files[k].hash@);
                }
            }
            assert forall|i: int, k: int|
                0 <= i < recs.len() && 0 <= k < files.len() && (#[trigger] r[i]).hash == (#[trigger] files[k]).hash@
                implies r[i] == refreshed_by(recs[i], files[k], s) by {
                if k < n {
                    assert(files[k].hash@ != f.hash@);
                    assert(p[i].hash == init[k].hash@);
                } else {
                    if exists|k2: int| 0 <= k2 < init.len() && (#[trigger] init[k2]).hash@ == p[i].hash {
                        let k2 = choose|k2: int| 0 <= k2 < init.len() && (#[trigger] init[k2]).hash@ == p[i].hash;
                        assert(files[k2].hash@ == files[n].hash@);
                    }
                    assert(p[i] == recs[i]);
                }
            }
            assert forall|i: int, k: int|
                0 <= i < r.len() && 0 <= k < files.len() && (#[trigger] r[i]).hash == (#[trigger] files[k]).hash@
                implies confirmed_by(r[i], files[k], s) by {
                if k < n {
                    assert(files[k].hash@ != f.hash@);
                    assert(p[i].hash == init[k].hash@);
                }
            }
            assert forall|i: int|
                0 <= i < r.len() && (forall|k: int| 0 <= k < files.len() ==> (#[trigger] files[k]).hash@ != r[i].hash)
                implies i < recs.len() && (#[trigger] r[i]) == recs[i] by {
                assert(files[n].hash@ != r[i].hash);
                assert(r[i] == p[i]);
                assert forall|k: int| 0 <= k < init.len() implies (#[trigger] init[k]).hash@ != p[i].hash by {
                    assert(files[k].hash@ != r[i].hash);
                }
            }
            if forall|k: int| 0 <= k < files.len() ==> has_hash(recs, (#[trigger] files[k]).hash@) {
                assert forall|k: int| 0 <= k < init.len() implies has_hash(recs, (#[trigger] init[k]).hash@) by {
                    assert(has_hash(recs, files[k].hash@));
                }
            }
        } else {
            let nr = file_record(f, s);
            assert(r == p.push(nr));
            assert forall|a: int, b: int|
                0 <= a < r.len() && 0 <= b < r.len() && a != b implies (#[trigger] r[a]).hash != (
                #[trigger] r[b]).hash by {
                if a < p.len() && b < p.len() {
                    assert(p[a].hash != p[b].hash);
                } else if a < p.len() {
                    assert(p[a].hash != f.hash@);
                } else {
                    assert(p[b].hash != f.hash@);
                }
            }
            assert forall|k: int| 0 <= k < files.len() implies has_hash(r, (#[trigger] files[k]).hash@) by {
                if k < n {
                    assert(has_hash(p, init[k].hash@));
                    let j = choose|j: int| 0 <= j < p.len() && (#[trigger] p[j]).hash == init[k].hash@;
                    assert(r[j].hash == files[k].hash@);
                } else {
                    assert(r[p.len() as int].hash == files[k].hash@);
                }
            }
            assert forall|i: int, k: int|
                0 <= i < recs.len() && 0 <= k < files.len() && (#[trigger] r[i]).hash == (#[trigger] files[k]).hash@
                implies r[i] == refreshed_by(recs[i], files[k], s) by {
                assert(r[i] == p[i]);
                if k == n {
                    assert(p[i].hash == f.hash@);
                } else {
                    assert(init[k] == files[k]);
                }
            }
            assert forall|i: int, k: int|
                0 <= i < r.len() && 0 <= k < files.len() && (#[trigger] r[i]).hash == (#[trigger] files[k]).hash@
                implies confirmed_by(r[i], files[k], s) by {
                if i < p.len() {
                    assert(r[i] == p[i]);
                    if k == n {
                        assert(p[i].hash == f.hash@);
                    } else {
                        assert(init[k] == files[k]);
                    }
                } else {
                    if k < n {
                        assert(files[k].hash@ != files[n].hash@);
                    }
                }
            }
            assert forall|i: int|
                0 <= i < r.len() && (forall|k: int| 0 <= k < files.len() ==> (#[trigger] files[k]).hash@ != r[i].hash)
                implies i < recs.len() && (#[trigger] r[i]) == recs[i] by {
                assert(files[n].hash@ != r[i].hash);
                assert(i < p.len());
                assert(r[i] == p[i]);
                assert forall|k: int| 0 <= k < init.len() implies (#[trigger] init[k]).hash@ != p[i].hash by {
                    assert(files[k].hash@ != r[i].hash);
                }
            }
            if forall|k: int| 0 <= k < files.len() ==> has_hash(recs, (#[trigger] files[k]).hash@) {
                assert(has_hash(recs, files[n].hash@));
                let j = choose|j: int| 0 <= j < recs.len() && (#[trigger] recs[j]).hash == files[n].hash@;
                assert(p[j].hash == f.hash@);
            }
        }
    }
}

} // verus!

verus! {

/// Scanning an unchanged directory again writes nothing: when the files of a
/// scan (with distinct contents, in a fresh session) are scanned once more in
/// a later session, every file comes out `Unchanged`, and the catalog differs
/// from the one the first scan left only in its session stamps.
pub proof fn lemma_rescan_unchanged(
    recs: Seq<RecordView>,
    files: Seq<AddonFileData>,
    s1: u32,
    s2: u32,
)
    requires
        crate::catalog::hashes_unique(recs),
        distinct_hashes(files),
        forall|i: int| 0 <= i < recs.len() ==> (#[trigger] recs[i]).scan_id != Some(s1),
    ensures
        forall|k: int|
            0 <= k < files.len() ==> outcome(
                #[trigger] apply_files(scan_pass(recs, files, s1), files.take(k), s2),
                files[k],
            ) == ProcessResult::Unchanged,
        all_unstamped(scan_pass(scan_pass(recs, files, s1), files, s2)) == all_unstamped(
            scan_pass(recs, files, s1),
        ),
{
    let a1 = apply_files(recs, files, s1);
    let r1 = scan_pass(recs, files, s1);
    lemma_applied(recs, files, s1);
    assert(r1.len() == a1.len());
    assert forall|i: int| 0 <= i < r1.len() implies (#[trigger] r1[i]).hash == a1[i].hash by {}
    assert forall|i: int, k: int|
        0 <= i < r1.len() && 0 <= k < files.len() && (#[trigger] r1[i]).hash == (#[trigger] files[k]).hash@
        implies r1[i] == a1[i] && confirmed_by(r1[i], files[k], s1) by {
        assert(confirmed_by(a1[i], files[k], s1));
    }
    assert(crate::catalog::hashes_unique(r1)) by {
        assert forall|a: int, b: int|
            0 <= a < r1.len() && 0 <= b < r1.len() && a != b implies (#[trigger] r1[a]).hash != (
            #[trigger] r1[b]).hash by {
            assert(a1[a].hash != a1[b].hash);
        }
    }
    assert forall|k: int| 0 <= k < files.len() implies has_hash(r1, (#[trigger] files[k]).hash@) by {
        assert(has_hash(a1, files[k].hash@));
        let j = choose|j: int| 0 <= j < a1.len() && (#[trigger] a1[j]).hash == files[k].hash@;
        assert(r1[j].hash == files[k].hash@);
    }
    assert forall|k: int| 0 <= k < files.len() implies outcome(
        #[trigger] apply_files(r1, files.take(k), s2),
        files[k],
    ) == ProcessResult::Unchanged by {
        let j = choose|j: int| 0 <= j < r1.len() && (#[trigger] r1[j]).hash == files[k].hash@;
        let pre = files.take(k);
        assert forall|m: int| 0 <= m < pre.len() implies (#[trigger] pre[m]).hash@ != r1[j].hash by {
            assert(pre[m] == files[m]);
        }
        lemma_untouched(r1, pre, s2, j);
        let rk = apply_files(r1, pre, s2);
        assert(rk[j] == r1[j]);
        assert(is_unchanged(rk[j], files[k]));
        assert(has_hash(rk, files[k].hash@));
    }
    let a2 = apply_files(r1, files, s2);
    let r2 = scan_pass(r1, files, s2);
    lemma_applied(r1, files, s2);
    assert(a2.len() == r1.len());
    assert forall|i: int| 0 <= i < r1.len() implies #[trigger] unstamped(r2[i]) == unstamped(r1[i]) by {
        if exists|k: int| 0 <= k < files.len() && (#[trigger] files[k]).hash@ == a2[i].hash {
            let k = choose|k: int| 0 <= k < files.len() && (#[trigger] files[k]).hash@ == a2[i].hash;
            assert(a2[i] == refreshed_by(r1[i], files[k], s2));
            assert(confirmed_by(r1[i], files[k], s1));
        } else {
            assert(a2[i] == r1[i]);
            assert forall|k: int| 0 <= k < files.len() implies (#[trigger] files[k]).hash@ != a1[i].hash by {}
            assert(a1[i] == recs[i]);
        }
    }
    assert(all_unstamped(r2) =~= all_unstamped(r1));
}

/// Rename detection: when a file of a scan has the content hash of an existing
/// record, the scan gives that record the file's name and details, at the same
/// place, and no other record has that hash afterwards.
pub proof fn lemma_rename_detected(
    recs: Seq<RecordView>,
    files: Seq<AddonFileData>,
    s: u32,
    i: int,
    k: int,
)
    requires
        crate::catalog::hashes_unique(recs),
        distinct_hashes(files),
        0 <= i < recs.len(),
        0 <= k < files.len(),
        recs[i].hash == files[k].hash@,
    ensures
        scan_pass(recs, files, s)[i] == refreshed_by(recs[i], files[k], s),
        scan_pass(recs, files, s)[i].filename == Some(files[k].filename@),
        forall|j: int|
            0 <= j < scan_pass(recs, files, s).len() && j != i ==> (#[trigger] scan_pass(recs, files, s)[j]).hash
                != recs[i].hash,
{
    lemma_applied(recs, files, s);
    let a = apply_files(recs, files, s);
    assert(a[i].hash == files[k].hash@);
    assert forall|j: int|
        0 <= j < scan_pass(recs, files, s).len() && j != i implies (#[trigger] scan_pass(recs, files, s)[j]).hash
        != recs[i].hash by {
        assert(a[j].hash != a[i].hash);
    }
}

/// A file whose content no record has becomes exactly one new record, stamped
/// with the scan's session.
pub proof fn lemma_new_entry(recs: Seq<RecordView>, files: Seq<AddonFileData>, s: u32, k: int)
    requires
        crate::catalog::hashes_unique(recs),
        distinct_hashes(files),
        0 <= k < files.len(),
        !has_hash(recs, files[k].hash@),
    ensures
        exists|j: int|
            recs.len() <= j < scan_pass(recs, files, s).len() && (#[trigger] scan_pass(recs, files, s)[j]).hash
                == files[k].hash@ && scan_pass(recs, files, s)[j].scan_id == Some(s)
                && scan_pass(recs, files, s)[j].filename == Some(files[k].filename@),
        forall|j1: int, j2: int|
            0 <= j1 < scan_pass(recs, files, s).len() && 0 <= j2 < scan_pass(recs, files, s).len() && (
            #[trigger] scan_pass(recs, files, s)[j1]).hash == files[k].hash@ && (#[trigger] scan_pass(
                recs,
                files,
                s,
            )[j2]).hash == files[k].hash@ ==> j1 == j2,
{
    lemma_applied(recs, files, s);
    let a = apply_files(recs, files, s);
    let r = scan_pass(recs, files, s);
    assert(has_hash(a, files[k].hash@));
    let j = choose|j: int| 0 <= j < a.len() && (#[trigger] a[j]).hash == files[k].hash@;
    if j < recs.len() {
        assert(recs[j].hash == files[k].hash@);
    }
    assert(confirmed_by(a[j], files[k], s));
    assert(r[j] == a[j]);
    assert forall|j1: int, j2: int|
        0 <= j1 < r.len() && 0 <= j2 < r.len() && (#[trigger] r[j1]).hash == files[k].hash@ && (
        #[trigger] r[j2]).hash == files[k].hash@ implies j1 == j2 by {
        assert(a[j1].hash == r[j1].hash && a[j2].hash == r[j2].hash);
    }
}

/// Soft deletion by absence: a record that no file of the scan matches stays,
/// at the same place and with the same data, but loses its file name.
pub proof fn lemma_absent_marked_missing(
    recs: Seq<RecordView>,
    files: Seq<AddonFileData>,
    s: u32,
    i: int,
)
    requires
        0 <= i < recs.len(),
        recs[i].scan_id != Some(s),
        forall|k: int| 0 <= k < files.len() ==> (#[trigger] files[k]).hash@ != recs[i].hash,
    ensures
        scan_pass(recs, files, s).len() >= recs.len(),
        scan_pass(recs, files, s)[i] == (RecordView { filename: None, ..recs[i] }),
{
    lemma_untouched(recs, files, s, i);
}

} // verus!

verus! {

/// What any run of files, duplicates of content included, does to records:
/// each file's content ends on a record stamped with the session and holding
/// a file name, and a record without a file name is one that no file touched.
proof fn lemma_applied_any(recs: Seq<RecordView>, files: Seq<AddonFileData>, s: u32)
    ensures
        apply_files(recs, files, s).len() >= recs.len(),
        forall|i: int| 0 <= i < recs.len() ==> (#[trigger] apply_files(recs, files, s)[i]).hash == recs[i].hash,
        forall|k: int| 0 <= k < files.len() ==> has_hash(apply_files(recs, files, s), (#[trigger] files[k]).hash@),
        forall|i: int, k: int|
            0 <= i < apply_files(recs, files, s).len() && 0 <= k < files.len() && (#[trigger] apply_files(
                recs,
                files,
                s,
            )[i]).hash == (#[trigger] files[k]).hash@ ==> apply_files(recs, files, s)[i].scan_id == Some(s)
                && apply_files(recs, files, s)[i].filename is Some,
        forall|i: int|
            0 <= i < apply_files(recs, files, s).len() && (#[trigger] apply_files(recs, files, s)[i]).filename is None
                ==> i < recs.len() && apply_files(recs, files, s)[i] == recs[i],
    decreases files.len(),
{
    if files.len() > 0 {
        let init = files.drop_last();
        let f = files.last();
        let n = files.len() - 1;
        assert(f == files[n]);
        lemma_applied_any(recs, init, s);
        let p = apply_files(recs, init, s);
        let r = apply_files(recs, files, s);
        assert(r == apply_file(p, f, s));
        assert forall|k: int| 0 <= k < init.len() implies #[trigger] init[k] == files[k] by {}
        if has_hash(p, f.hash@) {
            assert forall|i: int| 0 <= i < r.len() implies #[trigger] r[i] == (if p[i].hash == f.hash@ {
                refreshed_by(p[i], f, s)
            } else {
                p[i]
            }) by {}
            assert forall|k: int| 0 <= k < files.len() implies has_hash(r, (#[trigger] files[k]).hash@) by {
                if k < n {
                    assert(has_hash(p, init[k].hash@));
                    let j = choose|j: int| 0 <= j < p.len() && (#[trigger] p[j]).hash == init[k].hash@;
                    assert(r[j].hash == files[k].hash@);
                } else {
                    let j = choose|j: int| 0 <= j < p.len() && (#[trigger] p[j]).hash == f.hash@;
                    assert(r[j].hash == files[k].hash@);
                }
            }
            assert forall|i: int, k: int|
                0 <= i < r.len() && 0 <= k < files.len() && (#[trigger] r[i]).hash == (#[trigger] files[k]).hash@
                implies r[i].scan_id == Some(s) && r[i].filename is Some by {
                if p[i].hash != f.hash@ {
                    assert(k < n);
                    assert(p[i].hash == init[k].hash@);
                }
            }
        } else {
            assert(r == p.push(file_record(f, s)));
            assert forall|k: int| 0 <= k < files.len() implies has_hash(r, (#[trigger] files[k]).hash@) by {
                if k < n {
                    assert(has_hash(p, init[k].hash@));
                    let j = choose|j: int| 0 <= j < p.len() && (#[trigger] p[j]).hash == init[k].hash@;
                    assert(r[j].hash == files[k].hash@);
                } else {
                    assert(r[p.len() as int].hash == files[k].hash@);
                }
            }
            assert forall|i: int, k: int|
                0 <= i < r.len() && 0 <= k < files.len() && (#[trigger] r[i]).hash == (#[trigger] files[k]).hash@
                implies r[i].scan_id == Some(s) && r[i].filename is Some by {
                if i < p.len() {
                    assert(r[i] == p[i]);
                    if k == n {
                        assert(p[i].hash == f.hash@);
                    } else {
                        assert(p[i].hash == init[k].hash@);
                    }
                }
            }
        }
    }
}

/// An aborted scan keeps what it wrote: when a scan stops after the first `k`
/// of its files, the content of each of those files is on a record stamped
/// with the session and holding a file name; a record that had a file name
/// keeps one, and a record without one is unchanged, since an aborted scan
/// marks no record missing.
pub proof fn lemma_abort_keeps_writes(
    recs: Seq<RecordView>,
    files: Seq<AddonFileData>,
    s: u32,
    k: int,
)
    requires
        0 <= k <= files.len(),
    ensures
        apply_files(recs, files.take(k), s).len() >= recs.len(),
        forall|j: int|
            0 <= j < k ==> has_hash(apply_files(recs, files.take(k), s), (#[trigger] files[j]).hash@),
        forall|i: int, j: int|
            0 <= i < apply_files(recs, files.take(k), s).len() && 0 <= j < k && (#[trigger] apply_files(
                recs,
                files.take(k),
                s,
            )[i]).hash == (#[trigger] files[j]).hash@ ==> apply_files(recs, files.take(k), s)[i].scan_id
                == Some(s) && apply_files(recs, files.take(k), s)[i].filename is Some,
        forall|i: int|
            0 <= i < recs.len() && recs[i].filename is Some ==> (#[trigger] apply_files(
                recs,
                files.take(k),
                s,
            )[i]).filename is Some,
        forall|i: int|
            0 <= i < recs.len() && recs[i].filename is None ==> (#[trigger] apply_files(
                recs,
                files.take(k),
                s,
            )[i]).filename is Some || apply_files(recs, files.take(k), s)[i] == recs[i],
{
    let pre = files.take(k);
    lemma_applied_any(recs, pre, s);
    let r = apply_files(recs, pre, s);
    assert forall|j: int| 0 <= j < k implies has_hash(r, (#[trigger] files[j]).hash@) by {
        assert(pre[j] == files[j]);
    }
    assert forall|i: int, j: int|
        0 <= i < r.len() && 0 <= j < k && (#[trigger] r[i]).hash == (#[trigger] files[j]).hash@ implies r[i].scan_id
        == Some(s) && r[i].filename is Some by {
        assert(pre[j] == files[j]);
    }
    assert forall|i: int| 0 <= i < recs.len() && recs[i].filename is Some implies (#[trigger] r[i]).filename is Some by {
        if r[i].filename is None {
            assert(r[i] == recs[i]);
        }
    }
}

} // verus!
