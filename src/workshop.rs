use vstd::prelude::*;
use crate::flags::{AddonFlags, WORKSHOP};
use crate::catalog::{AddonStorage, WorkshopEntry, WorkshopItem, WorkshopView, entry_of, has_id, upsert, upsert_all, mark_present};
use crate::text::{copy_string, copy_opt_string, join_with_commas};

verus! {

/// Most ids the workshop service takes in one request.
pub const BATCH_LIMIT: usize = 100;

/// Bits of a workshop item's flags once presence is set or cleared.
proof fn lemma_presence_bits(f: u32)
    ensures
        ((f & !WORKSHOP) | WORKSHOP) & WORKSHOP == WORKSHOP,
        (f & !WORKSHOP) & WORKSHOP == 0,
{
    assert(((f & !1u32) | 1u32) & 1u32 == 1u32) by (bit_vector);
    assert((f & !1u32) & 1u32 == 0u32) by (bit_vector);
}

/// Whether an item's flags mark it as present in the workshop folder.
pub open spec fn is_present(w: WorkshopView) -> bool {
    w.flags & WORKSHOP == WORKSHOP
}

pub fn ids_contain(ids: &Vec<i64>, id: i64) -> (r: bool)
    ensures
        r == ids@.contains(id),
{
    let mut i: usize = 0;
    while i < ids.len()
        invariant
            i <= ids.len(),
            forall|j: int| 0 <= j < i ==> ids@[j] != id,
        decreases ids.len() - i,
    {
        if ids[i] == id {
            assert(ids@[i as int] == id);
            return true;
        }
        i = i + 1;
    }
    false
}

/// The stored form of a fetched item.
pub fn entry_from_item(item: &WorkshopItem) -> (r: WorkshopEntry)
    ensures
        r@ == entry_of(*item),
{
    WorkshopEntry {
        publishedfileid: item.publishedfileid,
        title: copy_string(&item.title),
        time_created: item.time_created,
        time_updated: Some(item.time_updated),
        file_size: item.file_size,
        description: copy_string(&item.description),
        file_url: copy_opt_string(&item.file_url),
        creator_id: copy_string(&item.creator),
        tags: join_with_commas(&item.tags),
        flags: AddonFlags(0),
    }
}

impl AddonStorage {
    /// Index of the workshop item with this id.
    pub fn find_workshop(&self, id: i64) -> (r: Option<usize>)
        ensures
            r matches Some(i) ==> i < self.items().len() && self.items()[i as int].id == id,
            r is None <==> !has_id(self.items(), id),
    {
        let mut i: usize = 0;
        while i < self.workshop.len()
            invariant
                i <= self.workshop.len(),
                forall|j: int| 0 <= j < i ==> self.items()[j].id != id,
            decreases self.workshop.len() - i,
        {
            if self.workshop[i].publishedfileid == id {
                return Some(i);
            }
            i = i + 1;
        }
        None
    }

    /// Inserts a workshop item, or replaces the one with the same id.
    pub fn upsert_workshop(&mut self, e: WorkshopEntry)
        requires
            old(self).wf(),
        ensures
            final(self).wf(),
            final(self).items() == upsert(old(self).items(), e@),
            final(self).recs() == old(self).recs(),
            final(self).tag_set() == old(self).tag_set(),
    {
        let ghost before = self.items();
        let ghost ev = e@;
        match self.find_workshop(e.publishedfileid) {
            Some(i) => {
                self.workshop.set(i, e);
                proof {
                    let expected = before.map_values(|w: WorkshopView| if w.id == ev.id { ev } else { w });
                    assert forall|j: int| 0 <= j < before.len() implies self.items()[j] == expected[j] by {
                        if j != i {
                            assert(before[j].id != before[i as int].id);
                        }
                    }
                    assert(self.items() =~= expected);
                    assert forall|a: int, b: int|
                        0 <= a < self.items().len() && 0 <= b < self.items().len() && a != b implies
                        (#[trigger] self.items()[a]).id != (#[trigger] self.items()[b]).id by {
                        assert(before[a].id != before[b].id);
                    }
                }
            },
            None => {
                self.workshop.push(e);
                proof {
                    assert(self.items() =~= before.push(ev));
                    assert forall|a: int, b: int|
                        0 <= a < self.items().len() && 0 <= b < self.items().len() && a != b implies
                        (#[trigger] self.items()[a]).id != (#[trigger] self.items()[b]).id by {
                        if a < before.len() && b < before.len() {
                            assert(before[a].id != before[b].id);
                        } else if a < before.len() {
                            assert(before[a].id != ev.id);
                        } else {
                            assert(before[b].id != ev.id);
                        }
                    }
                }
            },
        }
    }

    /// Inserts each item in turn, replacing a stored item with the same id.
    pub fn add_workshop_items(&mut self, items: Vec<WorkshopItem>)
        requires
            old(self).wf(),
        ensures
            final(self).wf(),
            final(self).items() == upsert_all(
                old(self).items(),
                items@.map_values(|it: WorkshopItem| entry_of(it)),
            ),
            final(self).recs() == old(self).recs(),
            final(self).tag_set() == old(self).tag_set(),
    {
        let ghost es = items@.map_values(|it: WorkshopItem| entry_of(it));
        let mut k: usize = 0;
        while k < items.len()
            invariant
                k <= items.len(),
                es == items@.map_values(|it: WorkshopItem| entry_of(it)),
                self.wf(),
                self.items() == upsert_all(old(self).items(), es.subrange(0, k as int)),
                self.recs() == old(self).recs(),
                self.tag_set() == old(self).tag_set(),
            decreases items.len() - k,
        {
            let e = entry_from_item(&items[k]);
            self.upsert_workshop(e);
            proof {
                assert(es.subrange(0, k as int + 1).drop_last() =~= es.subrange(0, k as int));
            }
            k = k + 1;
        }
        proof {
            assert(es.subrange(0, items.len() as int) =~= es);
        }
    }

    /// Sets the workshop-folder flag on exactly the items with the given ids
    /// and clears it on every other item.
    pub fn mark_workshop_ids(&mut self, ids: &Vec<i64>)
        requires
            old(self).wf(),
        ensures
            final(self).wf(),
            final(self).items() == mark_present(old(self).items(), ids@),
            forall|i: int|
                0 <= i < final(self).items().len() ==> (is_present(#[trigger] final(self).items()[i])
                    <==> ids@.contains(final(self).items()[i].id)),
            final(self).recs() == old(self).recs(),
            final(self).tag_set() == old(self).tag_set(),
    {
        let ghost before = self.items();
        let mut i: usize = 0;
        while i < self.workshop.len()
            invariant
                i <= self.workshop.len(),
                self.workshop.len() == before.len(),
                forall|j: int| 0 <= j < i ==> self.items()[j] == mark_present(before, ids@)[j],
                forall|j: int| i <= j < before.len() ==> self.items()[j] == before[j],
                self.recs() == old(self).recs(),
                self.tag_set() == old(self).tag_set(),
            decreases self.workshop.len() - i,
        {
            let present = ids_contain(ids, self.workshop[i].publishedfileid);
            let ghost old_items = self.items();
            let mut e = self.workshop.remove(i);
            let cleared = e.flags.difference(WORKSHOP);
            e.flags = if present { cleared.union(WORKSHOP) } else { cleared };
            self.workshop.insert(i, e);
            proof {
                assert(self.items() =~= old_items.update(i as int, e@));
                assert(e@ == mark_present(before, ids@)[i as int]);
                assert forall|j: int| 0 <= j < i + 1 implies self.items()[j] == mark_present(before, ids@)[j] by {
                }
            }
            i = i + 1;
        }
        proof {
            assert(self.items() =~= mark_present(before, ids@));
            assert forall|a: int, b: int|
                0 <= a < self.items().len() && 0 <= b < self.items().len() && a != b implies
                (#[trigger] self.items()[a]).id != (#[trigger] self.items()[b]).id by {
                assert(before[a].id != before[b].id);
            }
            assert forall|j: int| 0 <= j < self.items().len() implies (is_present(#[trigger] self.items()[j])
                <==> ids@.contains(self.items()[j].id)) by {
                lemma_presence_bits(before[j].flags);
            }
        }
    }

    /// The ids of all stored workshop items.
    pub fn list_workshop_ids(&self) -> (r: Vec<i64>)
        ensures
            r@ == self.items().map_values(|w: WorkshopView| w.id),
    {
        let mut r: Vec<i64> = Vec::new();
        let mut i: usize = 0;
        while i < self.workshop.len()
            invariant
                i <= self.workshop.len(),
                r@ == self.items().subrange(0, i as int).map_values(|w: WorkshopView| w.id),
            decreases self.workshop.len() - i,
        {
            r.push(self.workshop[i].publishedfileid);
            proof {
                assert(r@ =~= self.items().subrange(0, i as int + 1).map_values(|w: WorkshopView| w.id));
            }
            i = i + 1;
        }
        proof {
            assert(self.items().subrange(0, i as int) =~= self.items());
        }
        r
    }
}

} // verus!

verus! {

/// Presence tracking is a full resync, never additive: after marking the ids of
/// one scan and then those of a later scan, an item counts as present exactly
/// when the later scan found its id.
pub proof fn lemma_presence_resync(ws: Seq<WorkshopView>, first: Seq<i64>, second: Seq<i64>)
    ensures
        mark_present(mark_present(ws, first), second).len() == ws.len(),
        forall|i: int|
            0 <= i < ws.len() ==> (is_present(
                #[trigger] mark_present(mark_present(ws, first), second)[i],
            ) <==> second.contains(ws[i].id)),
{
    assert forall|i: int| 0 <= i < ws.len() implies (is_present(
        #[trigger] mark_present(mark_present(ws, first), second)[i],
    ) <==> second.contains(ws[i].id)) by {
        lemma_presence_bits(mark_present(ws, first)[i].flags);
    }
}

/// Ids that are new: each id of `xs` in order, skipping those in `known` and
/// those taken already.
pub open spec fn collect_new(xs: Seq<i64>, known: Seq<i64>) -> Seq<i64>
    decreases xs.len(),
{
    if xs.len() == 0 {
        Seq::empty()
    } else {
        let taken = collect_new(xs.drop_last(), known);
        if known.contains(xs.last()) || taken.contains(xs.last()) {
            taken
        } else {
            taken.push(xs.last())
        }
    }
}

proof fn lemma_collect_new(xs: Seq<i64>, known: Seq<i64>)
    ensures
        collect_new(xs, known).no_duplicates(),
        forall|x: i64|
            #[trigger] collect_new(xs, known).contains(x) <==> (xs.contains(x) && !known.contains(x)),
    decreases xs.len(),
{
    if xs.len() > 0 {
        lemma_collect_new(xs.drop_last(), known);
        let taken = collect_new(xs.drop_last(), known);
        assert forall|x: i64| #[trigger] collect_new(xs, known).contains(x) <==> (xs.contains(x)
            && !known.contains(x)) by {
            if xs.contains(x) && !known.contains(x) {
                let k = choose|k: int| 0 <= k < xs.len() && xs[k] == x;
                if k < xs.len() - 1 {
                    assert(xs.drop_last()[k] == x);
                }
            }
            if xs.drop_last().contains(x) {
                let k = choose|k: int| 0 <= k < xs.drop_last().len() && xs.drop_last()[k] == x;
                assert(xs[k] == x);
            }
            if !known.contains(xs.last()) && !taken.contains(xs.last()) {
                assert(taken.push(xs.last()).last() == xs.last());
                if taken.push(xs.last()).contains(x) && x != xs.last() {
                    let k = choose|k: int| 0 <= k < taken.push(xs.last()).len() && taken.push(xs.last())[k] == x;
                    assert(taken[k] == x);
                }
                if taken.contains(x) {
                    let k = choose|k: int| 0 <= k < taken.len() && taken[k] == x;
                    assert(taken.push(xs.last())[k] == x);
                }
            }
        }
    }
}

/// The ids that the resolver must look up: each id found in package files,
/// then each id found in the workshop folder, once, and none that the catalog
/// holds already.
pub fn pending_workshop_ids(discovered: &Vec<i64>, folder_ids: &Vec<i64>, known: &Vec<i64>) -> (r:
    Vec<i64>)
    ensures
        r@ == collect_new(discovered@ + folder_ids@, known@),
        r@.no_duplicates(),
        forall|x: i64|
            #[trigger] r@.contains(x) <==> ((discovered@.contains(x) || folder_ids@.contains(x))
                && !known@.contains(x)),
{
    let ghost all = discovered@ + folder_ids@;
    let mut r: Vec<i64> = Vec::new();
    let mut k: usize = 0;
    while k < discovered.len()
        invariant
            all == discovered@ + folder_ids@,
            k <= discovered.len(),
            r@ == collect_new(all.subrange(0, k as int), known@),
        decreases discovered.len() - k,
    {
        let x = discovered[k];
        assert(x == all[k as int]);
        proof {
            assert(all.subrange(0, k as int + 1).drop_last() =~= all.subrange(0, k as int));
        }
        if !ids_contain(known, x) && !ids_contain(&r, x) {
            r.push(x);
        }
        k = k + 1;
    }
    let mut j: usize = 0;
    while j < folder_ids.len()
        invariant
            all == discovered@ + folder_ids@,
            j <= folder_ids.len(),
            r@ == collect_new(all.subrange(0, discovered@.len() + j), known@),
        decreases folder_ids.len() - j,
    {
        let x = folder_ids[j];
        let ghost k = discovered@.len() + j;
        assert(x == all[k]);
        proof {
            assert(all.subrange(0, k + 1).drop_last() =~= all.subrange(0, k));
        }
        if !ids_contain(known, x) && !ids_contain(&r, x) {
            r.push(x);
        }
        j = j + 1;
    }
    let ghost n = all.len();
    proof {
        assert(all.subrange(0, n as int) =~= all);
        lemma_collect_new(all, known@);
        assert forall|x: i64| #[trigger] all.contains(x) <==> (discovered@.contains(x)
            || folder_ids@.contains(x)) by {
            if discovered@.contains(x) {
                let k = choose|k: int| 0 <= k < discovered@.len() && discovered@[k] == x;
                assert(all[k] == x);
            }
            if folder_ids@.contains(x) {
                let k = choose|k: int| 0 <= k < folder_ids@.len() && folder_ids@[k] == x;
                assert(all[discovered@.len() + k] == x);
            }
            if all.contains(x) {
                let k = choose|k: int| 0 <= k < all.len() && all[k] == x;
                if k < discovered@.len() {
                    assert(discovered@[k] == x);
                } else {
                    assert(folder_ids@[k - discovered@.len()] == x);
                }
            }
        }
    }
    r
}

/// Number of requests for `n` ids.
pub open spec fn batch_count(n: int) -> int {
    (n + BATCH_LIMIT - 1) / BATCH_LIMIT as int
}

/// The `k`-th request: the ids from `100 * k` on, at most 100 of them.
pub open spec fn batch_at(ids: Seq<i64>, k: int) -> Seq<i64> {
    let start = k * BATCH_LIMIT;
    let end = if start + BATCH_LIMIT < ids.len() { start + BATCH_LIMIT } else { ids.len() as int };
    ids.subrange(start, end)
}

/// Splits the ids, in order, into requests of at most `BATCH_LIMIT` ids.
pub fn workshop_batches(ids: &Vec<i64>) -> (r: Vec<Vec<i64>>)
    ensures
        r@.len() == batch_count(ids@.len() as int),
        forall|k: int| 0 <= k < r@.len() ==> (#[trigger] r@[k])@ == batch_at(ids@, k),
{
    let mut r: Vec<Vec<i64>> = Vec::new();
    let mut start: usize = 0;
    while start < ids.len()
        invariant
            start <= ids.len(),
            start < ids.len() ==> start == r@.len() * BATCH_LIMIT,
            start < ids.len() ==> r@.len() < batch_count(ids@.len() as int),
            start >= ids.len() ==> r@.len() == batch_count(ids@.len() as int),
            forall|k: int| 0 <= k < r@.len() ==> (#[trigger] r@[k])@ == batch_at(ids@, k),
        decreases ids.len() - start,
    {
        let end = if ids.len() - start > BATCH_LIMIT { start + BATCH_LIMIT } else { ids.len() };
        let mut batch: Vec<i64> = Vec::new();
        let mut i = start;
        while i < end
            invariant
                start <= i <= end,
                end <= ids.len(),
                batch@ == ids@.subrange(start as int, i as int),
            decreases end - i,
        {
            batch.push(ids[i]);
            proof {
                assert(batch@ =~= ids@.subrange(start as int, i as int + 1));
            }
            i = i + 1;
        }
        let ghost k = r@.len() as int;
        assert(batch@ == batch_at(ids@, k));
        r.push(batch);
        proof {
            let n = ids@.len() as int;
            if end == ids.len() {
                assert((n + 99) / 100 == k + 1) by (nonlinear_arith)
                    requires
                        k * 100 < n,
                        n <= k * 100 + 100,
                ;
            } else {
                assert((n + 99) / 100 > k + 1) by (nonlinear_arith)
                    requires
                        k * 100 + 100 < n,
                ;
            }
        }
        start = end;
    }
    r
}

/// Batch sizes: for `n` ids, each request but the last holds `BATCH_LIMIT` ids,
/// the last holds the rest, and the requests hold every id once, in order.
pub proof fn lemma_batch_sizes(ids: Seq<i64>)
    ensures
        forall|k: int|
            0 <= k < batch_count(ids.len() as int) - 1 ==> (#[trigger] batch_at(ids, k)).len()
                == BATCH_LIMIT,
        ids.len() > 0 ==> batch_at(ids, batch_count(ids.len() as int) - 1).len() == ids.len()
            - BATCH_LIMIT * (batch_count(ids.len() as int) - 1),
        forall|k: int, j: int|
            0 <= k < batch_count(ids.len() as int) && 0 <= j < batch_at(ids, k).len() ==> #[trigger] batch_at(
                ids,
                k,
            )[j] == ids[k * BATCH_LIMIT + j],
{
    let n = ids.len() as int;
    let c = batch_count(n);
    assert forall|k: int| 0 <= k < c - 1 implies (#[trigger] batch_at(ids, k)).len() == BATCH_LIMIT by {
        assert(k * 100 + 100 < n) by (nonlinear_arith)
            requires
                0 <= k,
                k < (n + 99) / 100 - 1,
        ;
    }
    if n > 0 {
        assert((c - 1) * 100 < n && n <= (c - 1) * 100 + 100) by (nonlinear_arith)
            requires
                c == (n + 99) / 100,
                n > 0,
        ;
    }
}

} // verus!
