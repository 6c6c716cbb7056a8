//! Site metadata for stable allocation: the slot already given to each
//! address, and a ring counter for the next new one.

use crate::slot::CMPLOG_MAP_W;
use vstd::prelude::*;

verus! {

/// The address to slot table, kept in a hashbrown map. The map type itself
/// cannot be declared to the verifier: its allocator parameter is bounded by
/// a trait of `allocator_api2`, which this crate does not name.
#[verifier::external_body]
pub struct SiteTable {
    map: hashbrown::HashMap<u64, u64>,
}

/// What a site table holds.
pub uninterp spec fn site_entries(t: SiteTable) -> Map<u64, u64>;

/// Relies on `hashbrown::HashMap::new`: a map with no entries.
#[verifier::external_body]
fn table_new() -> (r: SiteTable)
    ensures
        site_entries(r).dom().is_empty(),
{
    SiteTable { map: hashbrown::HashMap::new() }
}

/// Relies on `hashbrown::HashMap::get`: the value stored under `k`, if any.
#[verifier::external_body]
fn table_get(t: &SiteTable, k: u64) -> (r: Option<u64>)
    ensures
        r == (if site_entries(*t).dom().contains(k) {
            Some(site_entries(*t)[k])
        } else {
            None
        }),
{
    t.map.get(&k).copied()
}

/// Relies on `hashbrown::HashMap::insert`: `k` now maps to `v`, every other
/// key as before.
#[verifier::external_body]
fn table_insert(t: &mut SiteTable, k: u64, v: u64)
    ensures
        site_entries(*final(t)) == site_entries(*old(t)).insert(k, v),
{
    t.map.insert(k, v);
}

/// Relies on `hashbrown::HashMap::iter`: every entry once, in an order the
/// map chooses.
#[verifier::external_body]
fn table_entries(t: &SiteTable) -> (r: Vec<(u64, u64)>)
    ensures
        forall|i: int|
            0 <= i < r@.len() ==> site_entries(*t).dom().contains(#[trigger] r@[i].0)
                && site_entries(*t)[r@[i].0] == r@[i].1,
        forall|k: u64|
            #[trigger] site_entries(*t).dom().contains(k) ==> exists|i: int|
                0 <= i < r@.len() && #[trigger] r@[i].0 == k,
        forall|i: int, j: int| 0 <= i < j < r@.len() ==> r@[i].0 != r@[j].0,
{
    t.map.iter().map(|(k, v)| (*k, *v)).collect()
}

/// The map that inserting `pairs` in order into an empty one gives: a later
/// pair wins over an earlier one with the same address.
pub open spec fn pairs_map(pairs: Seq<(u64, u64)>) -> Map<u64, u64>
    decreases pairs.len(),
{
    if pairs.len() == 0 {
        Map::empty()
    } else {
        pairs_map(pairs.drop_last()).insert(pairs.last().0, pairs.last().1)
    }
}

/// One stable allocation for `pc` from entries `m` and counter `c` in a map
/// of `w` rows: the new entries, the new counter and the slot. A known
/// address keeps its slot; a new one takes the counter, which then moves on
/// by one modulo `w`. Entries are never evicted.
pub open spec fn alloc_step(m: Map<u64, u64>, c: u64, w: u64, pc: u64) -> (Map<u64, u64>, u64, u64) {
    if m.dom().contains(pc) {
        (m, c, m[pc])
    } else {
        (m.insert(pc, c), ((c + 1) % (w as int)) as u64, c)
    }
}

/// Per-state metadata of stable allocation.
pub struct QemuCmpsMapMetadata {
    map: SiteTable,
    current_id: u64,
    width: u64,
}

impl QemuCmpsMapMetadata {
    pub closed spec fn entries(&self) -> Map<u64, u64> {
        site_entries(self.map)
    }

    pub closed spec fn counter(&self) -> u64 {
        self.current_id
    }

    pub closed spec fn spec_width(&self) -> u64 {
        self.width
    }

    /// The counter and every slot handed out lie below the width.
    pub open spec fn wf(&self) -> bool {
        &&& self.spec_width() > 0
        &&& self.counter() < self.spec_width()
        &&& forall|k: u64| #[trigger]
            self.entries().dom().contains(k) ==> self.entries()[k] < self.spec_width()
    }

    /// Empty metadata for a map of `CMPLOG_MAP_W` rows.
    pub fn new() -> (r: QemuCmpsMapMetadata)
        ensures
            r.wf(),
            r.entries() == Map::<u64, u64>::empty(),
            r.counter() == 0,
            r.spec_width() == CMPLOG_MAP_W,
    {
        QemuCmpsMapMetadata::with_width(CMPLOG_MAP_W)
    }

    /// Empty metadata for a map of `w` rows.
    pub fn with_width(w: u64) -> (r: QemuCmpsMapMetadata)
        requires
            w > 0,
        ensures
            r.wf(),
            r.entries() == Map::<u64, u64>::empty(),
            r.counter() == 0,
            r.spec_width() == w,
    {
        QemuCmpsMapMetadata { map: table_new(), current_id: 0, width: w }
    }

    /// The number of rows the slots index.
    pub fn width(&self) -> (r: u64)
        ensures
            r == self.spec_width(),
    {
        self.width
    }

    /// The next slot a new address would take.
    pub fn current_id(&self) -> (r: u64)
        ensures
            r == self.counter(),
    {
        self.current_id
    }

    /// The slot already given to `pc`, if any.
    pub fn lookup(&self, pc: u64) -> (r: Option<u64>)
        ensures
            r == (if self.entries().dom().contains(pc) {
                Some(self.entries()[pc])
            } else {
                None
            }),
    {
        table_get(&self.map, pc)
    }

    /// The stored address to slot pairs, each once, in no fixed order.
    pub fn entries_vec(&self) -> (r: Vec<(u64, u64)>)
        ensures
            forall|i: int|
                0 <= i < r@.len() ==> self.entries().dom().contains(#[trigger] r@[i].0)
                    && self.entries()[r@[i].0] == r@[i].1,
            forall|k: u64|
                #[trigger] self.entries().dom().contains(k) ==> exists|i: int|
                    0 <= i < r@.len() && #[trigger] r@[i].0 == k,
            forall|i: int, j: int| 0 <= i < j < r@.len() ==> r@[i].0 != r@[j].0,
    {
        table_entries(&self.map)
    }

    /// Metadata restored from stored pairs, a counter and a width; nothing
    /// where the width is zero or the counter or a slot does not lie below
    /// it.
    pub fn from_entries(pairs: &Vec<(u64, u64)>, current_id: u64, width: u64) -> (r: Option<
        QemuCmpsMapMetadata,
    >)
        ensures
            r is Some <==> (width > 0 && current_id < width && forall|i: int|
                0 <= i < pairs@.len() ==> (#[trigger] pairs@[i]).1 < width),
            r is Some ==> {
                &&& r.unwrap().wf()
                &&& r.unwrap().entries() == pairs_map(pairs@)
                &&& r.unwrap().counter() == current_id
                &&& r.unwrap().spec_width() == width
            },
    {
        if width == 0 || current_id >= width {
            return None;
        }
        let mut map = table_new();
        proof {
            assert(site_entries(map) =~= Map::empty());
        }
        let mut i: usize = 0;
        while i < pairs.len()
            invariant
                width > 0,
                i <= pairs@.len(),
                site_entries(map) == pairs_map(pairs@.subrange(0, i as int)),
                forall|j: int| 0 <= j < i ==> (#[trigger] pairs@[j]).1 < width,
                forall|k: u64| #[trigger]
                    site_entries(map).dom().contains(k) ==> site_entries(map)[k] < width,
            decreases pairs@.len() - i,
        {
            let (k, v) = pairs[i];
            if v >= width {
                return None;
            }
            let ghost before = site_entries(map);
            table_insert(&mut map, k, v);
            proof {
                assert(pairs@.subrange(0, i + 1).drop_last() =~= pairs@.subrange(0, i as int));
                assert forall|q: u64| #[trigger]
                    site_entries(map).dom().contains(q) implies site_entries(map)[q] < width by {
                    if q != k {
                        assert(before.dom().contains(q));
                    }
                }
            }
            i = i + 1;
        }
        proof {
            assert(pairs@.subrange(0, pairs@.len() as int) =~= pairs@);
        }
        Some(QemuCmpsMapMetadata { map, current_id, width })
    }

    /// Stable allocation: the slot of `pc`, given now if it has none.
    pub fn allocate(&mut self, pc: u64) -> (r: u64)
        requires
            old(self).wf(),
        ensures
            final(self).wf(),
            final(self).spec_width() == old(self).spec_width(),
            r < old(self).spec_width(),
            (final(self).entries(), final(self).counter(), r) == alloc_step(
                old(self).entries(),
                old(self).counter(),
                old(self).spec_width(),
                pc,
            ),
    {
        match table_get(&self.map, pc) {
            Some(id) => id,
            None => {
                let id = self.current_id;
                let ghost before = self.entries();
                assert(forall|k: u64| #[trigger] before.dom().contains(k) ==> before[k] < self.width);
                table_insert(&mut self.map, pc, id);
                self.current_id = (id + 1) % self.width;
                proof {
                    assert(self.entries() == before.insert(pc, id));
                    assert forall|k: u64| #[trigger]
                        self.entries().dom().contains(k) implies self.entries()[k] < self.width by {
                        if k != pc {
                            assert(before.dom().contains(k));
                        }
                    }
                }
                id
            },
        }
    }
}

/// Stable allocation of each of `addrs` in turn: the final entries, the
/// final counter, and the slot each address got.
pub open spec fn alloc_run(m: Map<u64, u64>, c: u64, w: u64, addrs: Seq<u64>) -> (
    Map<u64, u64>,
    u64,
    Seq<u64>,
)
    decreases addrs.len(),
{
    if addrs.len() == 0 {
        (m, c, seq![])
    } else {
        let prev = alloc_run(m, c, w, addrs.drop_last());
        let step = alloc_step(prev.0, prev.1, w, addrs.last());
        (step.0, step.1, prev.2.push(step.2))
    }
}

/// Stable allocation is idempotent and never forgets: allocating `pc` gives
/// the slot it is then stored under, allocating it again gives the same
/// slot and changes nothing, and allocating any other address afterwards
/// keeps that slot.
pub proof fn lemma_stable_reuse(m: Map<u64, u64>, c: u64, w: u64, pc: u64, other: u64)
    requires
        w > 0,
    ensures
        ({
            let first = alloc_step(m, c, w, pc);
            &&& first.0.dom().contains(pc)
            &&& first.0[pc] == first.2
            &&& alloc_step(first.0, first.1, w, pc) == first
            &&& alloc_step(first.0, first.1, w, other).0.dom().contains(pc)
            &&& alloc_step(first.0, first.1, w, other).0[pc] == first.2
            &&& alloc_step(alloc_step(first.0, first.1, w, other).0, alloc_step(first.0, first.1, w, other).1, w, pc).2 == first.2
        }),
{
}

/// Every slot stable allocation hands out lies below the width, given a
/// counter and stored slots that do.
pub proof fn lemma_stable_in_range(m: Map<u64, u64>, c: u64, w: u64, pc: u64)
    requires
        w > 0,
        c < w,
        forall|k: u64| #[trigger] m.dom().contains(k) ==> m[k] < w,
    ensures
        alloc_step(m, c, w, pc).2 < w,
        alloc_step(m, c, w, pc).1 < w,
        forall|k: u64| #[trigger]
            alloc_step(m, c, w, pc).0.dom().contains(k) ==> alloc_step(m, c, w, pc).0[k] < w,
{
    let r = alloc_step(m, c, w, pc);
    assert forall|k: u64| #[trigger] r.0.dom().contains(k) implies r.0[k] < w by {
        if k != pc {
            assert(m.dom().contains(k));
        }
    }
}

proof fn lemma_run_fresh(m: Map<u64, u64>, c: u64, w: u64, addrs: Seq<u64>)
    requires
        w > 0,
        c < w,
        forall|i: int, j: int| 0 <= i < j < addrs.len() ==> addrs[i] != addrs[j],
        forall|i: int| 0 <= i < addrs.len() ==> !m.dom().contains(#[trigger] addrs[i]),
    ensures
        alloc_run(m, c, w, addrs).2.len() == addrs.len(),
        alloc_run(m, c, w, addrs).1 == (c + addrs.len()) % (w as int),
        forall|i: int| 0 <= i < addrs.len() ==> alloc_run(m, c, w, addrs).2[i] == (c + i) % (w as int),
        forall|k: u64| #[trigger] alloc_run(m, c, w, addrs).0.dom().contains(k) ==> m.dom().contains(k) || addrs.contains(k),
    decreases addrs.len(),
{
    if addrs.len() == 0 {
        vstd::arithmetic::div_mod::lemma_small_mod(c as nat, w as nat);
    } else {
        let init = addrs.drop_last();
        lemma_run_fresh(m, c, w, init);
        let prev = alloc_run(m, c, w, init);
        let a = addrs.last();
        assert(!prev.0.dom().contains(a)) by {
            if prev.0.dom().contains(a) {
                if !m.dom().contains(a) {
                    let j = choose|j: int| 0 <= j < init.len() && init[j] == a;
                    assert(addrs[j] == addrs[addrs.len() - 1]);
                }
            }
        }
        vstd::arithmetic::div_mod::lemma_add_mod_noop_right(1, c + init.len(), w as int);
        assert(prev.1 + 1 == 1 + (c + init.len()) % (w as int));
        assert(alloc_run(m, c, w, addrs).1 == (1 + (c + init.len()) % (w as int)) % (w as int));
        assert(1 + c + init.len() == c + addrs.len());
        let r = alloc_run(m, c, w, addrs);
        assert forall|k: u64| #[trigger] r.0.dom().contains(k) implies m.dom().contains(k) || addrs.contains(k) by {
            if k != a && !m.dom().contains(k) {
                let j = choose|j: int| 0 <= j < init.len() && init[j] == k;
                assert(addrs[j] == k);
            } else if k == a {
                assert(addrs[addrs.len() - 1] == k);
            }
        }
    }
}

/// Stable allocation is a ring: new distinct addresses take consecutive
/// slots from the counter on, modulo the width, so that after `w` new
/// addresses the next one takes the slot the first one got, and no slot
/// reaches `w`.
pub proof fn lemma_ring_wraps(m: Map<u64, u64>, c: u64, w: u64, addrs: Seq<u64>)
    requires
        w > 0,
        c < w,
        addrs.len() == w + 1,
        forall|i: int, j: int| 0 <= i < j < addrs.len() ==> addrs[i] != addrs[j],
        forall|i: int| 0 <= i < addrs.len() ==> !m.dom().contains(#[trigger] addrs[i]),
    ensures
        alloc_run(m, c, w, addrs).2.len() == w + 1,
        alloc_run(m, c, w, addrs).2[0] == c,
        alloc_run(m, c, w, addrs).2[w as int] == c,
        forall|i: int| 0 <= i <= w ==> #[trigger] alloc_run(m, c, w, addrs).2[i] < w,
{
    lemma_run_fresh(m, c, w, addrs);
    vstd::arithmetic::div_mod::lemma_small_mod(c as nat, w as nat);
    vstd::arithmetic::div_mod::lemma_mod_add_multiples_vanish(c as int, w as int);
    assert forall|i: int| 0 <= i <= w implies #[trigger] alloc_run(m, c, w, addrs).2[i] < w by {
        vstd::arithmetic::div_mod::lemma_mod_bound(c + i, w as int);
    }
}

} // verus!
