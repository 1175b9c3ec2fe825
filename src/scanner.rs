use vstd::prelude::*;
use vstd::set_lib::{set_int_range, lemma_int_range, lemma_len_subset};
use crate::catalog::{RecordView, AddonStorage, WorkshopItem, upsert_all, entry_of, mark_present, mark_missing};
use crate::scan::{AddonFileData, ProcessResult, process_file, apply_file, outcome, new_entry_id, scan_pass, apply_files};
use crate::text::opt_view;
use crate::workshop::{ids_contain, pending_workshop_ids, collect_new};

verus! {

/// How much of the machine a scan may use.
#[derive(Clone, Copy, Debug, PartialEq, Eq, Structural)]
pub enum ScanSpeed {
    /// Uses every core.
    Maximum,
    /// Uses half of the cores, rounded up.
    Normal,
    /// Uses one core.
    Background,
}

impl Default for ScanSpeed {
    fn default() -> (r: ScanSpeed)
        ensures
            r == ScanSpeed::Normal,
    {
        ScanSpeed::Normal
    }
}

/// Worker count for a speed on a machine with `cpus` cores, at most 255.
pub open spec fn threads_for_spec(speed: ScanSpeed, cpus: int) -> int {
    let n = match speed {
        ScanSpeed::Maximum => cpus,
        ScanSpeed::Normal => (cpus + 1) / 2,
        ScanSpeed::Background => 1,
    };
    if n > 255 {
        255
    } else {
        n
    }
}

/// Relies on num_cpus::get, which counts the cores this process may use and
/// is documented to return at least 1.
#[verifier::external_body]
fn available_cores() -> (r: usize)
    ensures
        r >= 1,
{
    num_cpus::get()
}

impl ScanSpeed {
    /// Worker count for this speed on a machine with `cpus` cores.
    pub fn threads_for(&self, cpus: usize) -> (r: u8)
        requires
            cpus >= 1,
        ensures
            r as int == threads_for_spec(*self, cpus as int),
            r >= 1,
    {
        let n: usize = match self {
            ScanSpeed::Maximum => cpus,
            ScanSpeed::Normal => cpus / 2 + cpus % 2,
            ScanSpeed::Background => 1,
        };
        if n > 255 {
            255
        } else {
            n as u8
        }
    }

    /// Worker count for this speed on this machine.
    pub fn threads(&self) -> (r: u8)
        ensures
            r >= 1,
            exists|cpus: int| cpus >= 1 && r as int == threads_for_spec(*self, cpus),
    {
        let cpus = available_cores();
        self.threads_for(cpus)
    }
}

/// Events that tell the surrounding application how a scan goes.
#[derive(Debug)]
pub enum ScanState {
    Started { speed: ScanSpeed },
    /// `timed_out` tells that the wait for the scan to stop ran out.
    Aborted { reason: Option<String>, timed_out: bool },
    Complete { time: u64, total: u32, added: u32, updated: u32, failed: u32 },
}

/// Progress of a scan: results handled out of files found.
#[derive(Clone, Copy, Debug, PartialEq, Eq, Structural)]
pub struct ScanProgress {
    pub items: u32,
    pub processed: u32,
}

/// Running counts of a scan.
#[derive(Clone, Copy, Debug, PartialEq, Eq, Structural)]
pub struct ScanCounter {
    pub total: u32,
    pub added: u32,
    pub updated: u32,
    pub errors: u32,
}

/// One scan session: its id, its counts, and the workshop ids it found.
pub struct ScanRun {
    pub scan_id: u32,
    /// Number of files the scan found.
    pub items: u32,
    pub counter: ScanCounter,
    /// Workshop ids the catalog held when the scan started.
    pub existing_ws_ids: Vec<i64>,
    /// Workshop ids of new records, to look up.
    pub workshop_ids: Vec<i64>,
}

impl ScanRun {
    pub open spec fn wf(&self) -> bool {
        self.counter.added + self.counter.updated + self.counter.errors == self.counter.total
    }

    pub fn new(scan_id: u32, items: u32, existing_ws_ids: Vec<i64>) -> (r: ScanRun)
        ensures
            r.wf(),
            r.scan_id == scan_id,
            r.items == items,
            r.counter == (ScanCounter { total: 0, added: 0, updated: 0, errors: 0 }),
            r.existing_ws_ids@ == existing_ws_ids@,
            r.workshop_ids@.len() == 0,
    {
        ScanRun {
            scan_id,
            items,
            counter: ScanCounter { total: 0, added: 0, updated: 0, errors: 0 },
            existing_ws_ids,
            workshop_ids: Vec::new(),
        }
    }

    /// Handles one worker result. A failed file counts as an error; a scanned
    /// file is reconciled with the catalog and counts as added or, when a
    /// record with its content existed, as updated (also when that record
    /// needed no change), so every result is counted exactly once; the
    /// workshop id of a new record is queued unless the catalog knew it.
    pub fn handle_result(&mut self, store: &mut AddonStorage, result: &Result<AddonFileData, String>) -> (r: Option<ProcessResult>)
        requires
            old(self).wf(),
            old(store).wf(),
            old(self).counter.total < u32::MAX,
        ensures
            final(self).wf(),
            final(store).wf(),
            final(self).scan_id == old(self).scan_id,
            final(self).items == old(self).items,
            final(self).existing_ws_ids@ == old(self).existing_ws_ids@,
            final(self).counter.total == old(self).counter.total + 1,
            final(store).tag_set() == old(store).tag_set(),
            final(store).items() == old(store).items(),
            match result {
                Err(_) => {
                    &&& r is None
                    &&& final(store).recs() == old(store).recs()
                    &&& final(self).counter == (ScanCounter { total: (old(self).counter.total + 1) as u32, errors: (old(self).counter.errors + 1) as u32, ..old(self).counter })
                    &&& final(self).workshop_ids@ == old(self).workshop_ids@
                },
                Ok(f) => {
                    &&& r == Some(outcome(old(store).recs(), *f))
                    &&& final(store).recs() == apply_file(old(store).recs(), *f, old(self).scan_id)
                    &&& final(self).counter.errors == old(self).counter.errors
                    &&& final(self).counter.added == old(self).counter.added + (if r == Some(ProcessResult::Added) { 1int } else { 0 })
                    &&& final(self).counter.updated == old(self).counter.updated + (if r == Some(ProcessResult::Added) { 0int } else { 1 })
                    &&& final(self).workshop_ids@ == (match new_entry_id(outcome(old(store).recs(), *f), *f) {
                        Some(id) => if old(self).existing_ws_ids@.contains(id) { old(self).workshop_ids@ } else { old(self).workshop_ids@.push(id) },
                        None => old(self).workshop_ids@,
                    })
                },
            },
    {
        self.counter.total = self.counter.total + 1;
        match result {
            Err(_) => {
                self.counter.errors = self.counter.errors + 1;
                None
            },
            Ok(file) => {
                let (res, ws_id) = process_file(store, file, self.scan_id);
                match res {
                    ProcessResult::Added => {
                        self.counter.added = self.counter.added + 1;
                        if let Some(id) = ws_id {
                            if !ids_contain(&self.existing_ws_ids, id) {
                                self.workshop_ids.push(id);
                            }
                        }
                    },
                    ProcessResult::UpdatedByHash | ProcessResult::Unchanged => {
                        self.counter.updated = self.counter.updated + 1;
                    },
                }
                Some(res)
            },
        }
    }

    pub fn progress(&self) -> (r: ScanProgress)
        ensures
            r.items == self.items,
            r.processed == self.counter.total,
    {
        ScanProgress { items: self.items, processed: self.counter.total }
    }

    /// The ids to look up once every file is handled: the queued ids, then the
    /// workshop folder's ids, each once, none that the catalog knew.
    pub fn workshop_queue(&self, folder_ids: &Vec<i64>) -> (r: Vec<i64>)
        ensures
            r@ == collect_new(self.workshop_ids@ + folder_ids@, self.existing_ws_ids@),
            r@.no_duplicates(),
            forall|x: i64|
                #[trigger] r@.contains(x) <==> ((self.workshop_ids@.contains(x) || folder_ids@.contains(x))
                    && !self.existing_ws_ids@.contains(x)),
    {
        pending_workshop_ids(&self.workshop_ids, folder_ids, &self.existing_ws_ids)
    }

    /// Ends a scan that ran to completion: stores the fetched workshop items,
    /// resyncs workshop-folder presence to exactly `folder_ids`, then clears
    /// the file name of every record this session did not confirm.
    pub fn finish(&self, store: &mut AddonStorage, fetched: Vec<WorkshopItem>, folder_ids: &Vec<i64>)
        requires
            old(store).wf(),
        ensures
            final(store).wf(),
            final(store).items() == mark_present(
                upsert_all(old(store).items(), fetched@.map_values(|it: WorkshopItem| entry_of(it))),
                folder_ids@,
            ),
            final(store).recs() == mark_missing(old(store).recs(), self.scan_id),
            final(store).tag_set() == old(store).tag_set(),
    {
        store.add_workshop_items(fetched);
        store.mark_workshop_ids(folder_ids);
        store.scan_mark_missing(self.scan_id);
    }

    /// The event that reports a completed scan.
    pub fn summary(&self, time: u64) -> (r: ScanState)
        requires
            self.wf(),
        ensures
            self.counter.added + self.counter.updated + self.counter.errors == self.counter.total,
            r == (ScanState::Complete {
                time,
                total: self.counter.total,
                added: self.counter.added,
                updated: self.counter.updated,
                failed: self.counter.errors,
            }),
    {
        ScanState::Complete {
            time,
            total: self.counter.total,
            added: self.counter.added,
            updated: self.counter.updated,
            failed: self.counter.errors,
        }
    }
}

/// Reconciles the results of a whole scan in order, then marks the records
/// that the session did not confirm as missing.
pub fn reconcile(store: &mut AddonStorage, files: &Vec<AddonFileData>, scan_id: u32)
    requires
        old(store).wf(),
    ensures
        final(store).wf(),
        final(store).recs() == scan_pass(old(store).recs(), files@, scan_id),
        final(store).tag_set() == old(store).tag_set(),
        final(store).items() == old(store).items(),
{
    let mut i: usize = 0;
    while i < files.len()
        invariant
            i <= files.len(),
            store.wf(),
            store.recs() == apply_files(old(store).recs(), files@.subrange(0, i as int), scan_id),
            store.tag_set() == old(store).tag_set(),
            store.items() == old(store).items(),
        decreases files.len() - i,
    {
        process_file(store, &files[i], scan_id);
        proof {
            let next = files@.subrange(0, i as int + 1);
            assert(next.drop_last() =~= files@.subrange(0, i as int));
            assert(next.last() == files@[i as int]);
        }
        i = i + 1;
    }
    proof {
        assert(files@.subrange(0, i as int) =~= files@);
    }
    store.scan_mark_missing(scan_id);
}

} // verus!

verus! {

/// Relies on rand::rngs::OsRng and RngCore::try_fill_bytes: four bytes from
/// the operating system's random source, or `None` when it cannot supply
/// them. Nothing is promised of the value.
#[verifier::external_body]
fn draw_u32() -> (r: Option<u32>) {
    let mut buf = [0u8; 4];
    match rand::RngCore::try_fill_bytes(&mut rand::rngs::OsRng, &mut buf) {
        Ok(()) => Some(u32::from_le_bytes(buf)),
        Err(_) => None,
    }
}

/// Whether some record carries this session id.
pub open spec fn id_in_use(recs: Seq<RecordView>, id: u32) -> bool {
    exists|i: int| 0 <= i < recs.len() && (#[trigger] recs[i]).scan_id == Some(id)
}

/// Among the ids `0 ..= n` one is on none of `n` records.
proof fn lemma_some_id_free(recs: Seq<RecordView>)
    requires
        recs.len() < u32::MAX,
    ensures
        exists|j: u32| j as int <= recs.len() && !#[trigger] id_in_use(recs, j),
{
    let n = recs.len() as int;
    let ids = recs.map_values(|r: RecordView| match r.scan_id {
        Some(x) => x as int,
        None => -1,
    });
    if forall|j: u32| j as int <= n ==> #[trigger] id_in_use(recs, j) {
        assert forall|j: int| #[trigger] set_int_range(0, n + 1).contains(j) implies ids.to_set().contains(j) by {
            assert(id_in_use(recs, j as u32));
            let i = choose|i: int| 0 <= i < recs.len() && (#[trigger] recs[i]).scan_id == Some(j as u32);
            assert(ids[i] == j);
            assert(ids.contains(j));
        }
        ids.lemma_cardinality_of_set();
        lemma_int_range(0, n + 1);
        assert(set_int_range(0, n + 1).subset_of(ids.to_set()));
        lemma_len_subset(set_int_range(0, n + 1), ids.to_set());
        assert(false);
    }
}

impl AddonStorage {
    /// Whether some record carries this session id.
    pub fn session_in_use(&self, id: u32) -> (r: bool)
        ensures
            r == id_in_use(self.recs(), id),
    {
        let mut i: usize = 0;
        while i < self.records.len()
            invariant
                i <= self.records.len(),
                forall|j: int| 0 <= j < i ==> self.recs()[j].scan_id != Some(id),
            decreases self.records.len() - i,
        {
            if self.records[i].scan_id == Some(id) {
                assert(self.recs()[i as int].scan_id == Some(id));
                return true;
            }
            i = i + 1;
        }
        false
    }
}

/// A session id that no record carries: `drawn` when it is free, else the
/// least free id.
pub fn fresh_session_id(store: &AddonStorage, drawn: u32) -> (r: u32)
    requires
        store.recs().len() < u32::MAX,
    ensures
        !id_in_use(store.recs(), r),
        !id_in_use(store.recs(), drawn) ==> r == drawn,
        id_in_use(store.recs(), drawn) ==> forall|j: u32| j < r ==> id_in_use(store.recs(), j),
{
    if !store.session_in_use(drawn) {
        return drawn;
    }
    let n = store.records.len();
    let mut k: u32 = 0;
    while (k as usize) <= n
        invariant
            n == store.recs().len(),
            n < u32::MAX,
            k as int <= n + 1,
            id_in_use(store.recs(), drawn),
            forall|j: u32| j < k ==> id_in_use(store.recs(), j),
        decreases n + 1 - k as int,
    {
        if !store.session_in_use(k) {
            return k;
        }
        k = k + 1;
    }
    proof {
        lemma_some_id_free(store.recs());
        let j = choose|j: u32| j as int <= store.recs().len() && !#[trigger] id_in_use(store.recs(), j);
        assert(j < k);
    }
    0
}

/// How the work of a scan ended.
#[derive(Debug)]
pub enum ScanEnd {
    /// Every file was handled; the summary reports the counts.
    Completed(ScanState),
    /// The scan stopped early after an abort request.
    Stopped,
    /// The scan could not go on.
    Failed(String),
}

/// Where the scanner is in its cycle.
#[derive(Clone, Copy, Debug, PartialEq, Eq, Structural)]
pub enum ScanPhase {
    /// No scan runs.
    Idle,
    /// A scan runs and should go on.
    Running,
    /// A scan runs and was asked to stop.
    Stopping,
}

/// The scan state machine: Idle, then Running, then back to Idle through a
/// completion or an abort. The surrounding application does the work; this
/// decides what each request does.
pub struct AddonScanner {
    pub phase: ScanPhase,
    /// Session of the running scan.
    pub scan_id: Option<u32>,
}

/// The reason that an abort reports: marked when the wait for the scan to
/// drain timed out.
pub open spec fn abort_reason(reason: Option<Seq<char>>, timed_out: bool) -> Option<Seq<char>> {
    match reason {
        Some(r) => if timed_out {
            Some(r + " (timed out)"@)
        } else {
            Some(r)
        },
        None => None,
    }
}

/// Phase after an abort request.
pub open spec fn phase_after_abort(p: ScanPhase) -> ScanPhase {
    if p == ScanPhase::Running {
        ScanPhase::Stopping
    } else {
        p
    }
}

impl AddonScanner {
    pub fn new() -> (r: AddonScanner)
        ensures
            r.phase == ScanPhase::Idle,
            r.scan_id is None,
    {
        AddonScanner { phase: ScanPhase::Idle, scan_id: None }
    }

    /// Is a scan running.
    pub fn check_running(&self) -> (r: bool)
        ensures
            r == (self.phase != ScanPhase::Idle),
    {
        self.phase != ScanPhase::Idle
    }

    /// Whether the running scan should take on more work.
    pub fn should_continue(&self) -> (r: bool)
        ensures
            r == (self.phase == ScanPhase::Running),
    {
        self.phase == ScanPhase::Running
    }

    /// Starts a scan with a fresh session id; refused while a scan runs.
    pub fn start(&mut self, scan_id: u32) -> (r: bool)
        ensures
            r == (old(self).phase == ScanPhase::Idle),
            r ==> final(self).phase == ScanPhase::Running && final(self).scan_id == Some(scan_id),
            !r ==> *final(self) == *old(self),
    {
        if self.phase != ScanPhase::Idle {
            return false;
        }
        self.phase = ScanPhase::Running;
        self.scan_id = Some(scan_id);
        true
    }

    /// Starts a scan under a freshly drawn session id that no record of the
    /// catalog carries, and returns the id; refused while a scan runs. When
    /// no random value can be had, the lowest free id is taken.
    pub fn start_session(&mut self, store: &AddonStorage) -> (r: Option<u32>)
        requires
            store.recs().len() < u32::MAX,
        ensures
            r matches Some(id) ==> !id_in_use(store.recs(), id),
            r is Some <==> old(self).phase == ScanPhase::Idle,
            r matches Some(id) ==> final(self).phase == ScanPhase::Running && final(self).scan_id == Some(id),
            r is None ==> *final(self) == *old(self),
    {
        if self.phase != ScanPhase::Idle {
            return None;
        }
        let drawn: u32 = match draw_u32() {
            Some(v) => v,
            None => 0,
        };
        let scan_id = fresh_session_id(store, drawn);
        self.start(scan_id);
        Some(scan_id)
    }

    /// The event that a started scan reports.
    pub fn started(&self, speed: ScanSpeed) -> (r: ScanState)
        ensures
            r == (ScanState::Started { speed }),
    {
        ScanState::Started { speed }
    }

    /// Asks the running scan to stop. Returns whether the caller must now
    /// wait for it and then call `aborted`; without a running scan nothing
    /// happens.
    pub fn abort(&mut self) -> (r: bool)
        ensures
            final(self).phase == phase_after_abort(old(self).phase),
            final(self).scan_id == old(self).scan_id,
            r == (old(self).phase == ScanPhase::Running),
    {
        if self.phase != ScanPhase::Running {
            return false;
        }
        self.phase = ScanPhase::Stopping;
        true
    }

    /// Ends a scan that was asked to stop and reports it as aborted.
    pub fn aborted(&mut self, reason: Option<String>, timed_out: bool) -> (r: ScanState)
        requires
            old(self).phase == ScanPhase::Stopping,
        ensures
            final(self).phase == ScanPhase::Idle,
            final(self).scan_id is None,
            r matches ScanState::Aborted { reason: got, timed_out: t } && opt_view(got) == abort_reason(opt_view(reason), timed_out) && t == timed_out,
    {
        self.phase = ScanPhase::Idle;
        self.scan_id = None;
        let reason = match reason {
            Some(r) => if timed_out {
                Some(r.concat(" (timed out)"))
            } else {
                Some(r)
            },
            None => None,
        };
        proof {
            reveal_strlit(" (timed out)");
        }
        ScanState::Aborted { reason, timed_out }
    }

    /// Decides the one terminal event of a scan whose work has ended. A scan
    /// reports `Complete` only when it ran to the end and no abort was asked
    /// for; an asked-for abort, an early stop or a failure report `Aborted`.
    /// Without a running scan there is nothing to report.
    pub fn ended(&mut self, end: ScanEnd) -> (r: Option<ScanState>)
        ensures
            old(self).phase == ScanPhase::Idle ==> r is None && *final(self) == *old(self),
            old(self).phase != ScanPhase::Idle ==> final(self).phase == ScanPhase::Idle && final(self).scan_id is None,
            old(self).phase == ScanPhase::Running ==> (end matches ScanEnd::Completed(s) ==> r == Some(s)),
            old(self).phase == ScanPhase::Stopping ==> (r matches Some(ScanState::Aborted { reason: None, timed_out: false })),
            old(self).phase == ScanPhase::Running ==> (end is Stopped ==> (r matches Some(ScanState::Aborted { reason: None, timed_out: false }))),
            old(self).phase == ScanPhase::Running ==> (end matches ScanEnd::Failed(e) ==> (r matches Some(ScanState::Aborted { reason: Some(got), timed_out: false }) && got == e)),
    {
        match self.phase {
            ScanPhase::Idle => None,
            ScanPhase::Stopping => {
                self.phase = ScanPhase::Idle;
                self.scan_id = None;
                Some(ScanState::Aborted { reason: None, timed_out: false })
            },
            ScanPhase::Running => {
                self.phase = ScanPhase::Idle;
                self.scan_id = None;
                match end {
                    ScanEnd::Completed(s) => Some(s),
                    ScanEnd::Stopped => Some(ScanState::Aborted { reason: None, timed_out: false }),
                    ScanEnd::Failed(e) => Some(ScanState::Aborted { reason: Some(e), timed_out: false }),
                }
            },
        }
    }

    /// Ends a scan that ran to completion.
    pub fn completed(&mut self)
        requires
            old(self).phase == ScanPhase::Running,
        ensures
            final(self).phase == ScanPhase::Idle,
            final(self).scan_id is None,
    {
        self.phase = ScanPhase::Idle;
        self.scan_id = None;
    }
}

/// An abort request moves a running scan to `Stopping`, the one phase that
/// `aborted` accepts and always ends with an `Aborted` event; in any other
/// phase the request changes nothing, and a repeated request changes nothing
/// more.
pub proof fn lemma_abort_ends(p: ScanPhase)
    ensures
        p == ScanPhase::Running ==> phase_after_abort(p) == ScanPhase::Stopping,
        p != ScanPhase::Running ==> phase_after_abort(p) == p,
        phase_after_abort(phase_after_abort(p)) == phase_after_abort(p),
{
}

} // verus!
