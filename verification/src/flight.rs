//! The single-flight bitmap cache: a small, recency-ordered table from source
//! identity (its pre-crop request path) to either a decoded bitmap or an
//! in-flight marker. For each key at most one caller ever becomes the
//! producer of the fetch-and-decode work; everyone else arriving for the same
//! key is told to wait for that producer's result. Entries are value-owned:
//! a caller holding a bitmap keeps it even after the slot is evicted.

use vstd::prelude::*;
use crate::bitmap::{bm_wf, Bitmap, BitmapModel};

verus! {

/// State of one slot: the decode is still in flight, or the bitmap is there.
pub enum SlotState {
    InFlight,
    Ready(Bitmap),
}

/// One cache slot: a source key and its state.
pub struct Slot {
    pub key: Vec<u8>,
    pub state: SlotState,
}

/// Model of a slot's state.
pub enum SlotModel {
    InFlight,
    Ready(BitmapModel),
}

impl SlotState {
    pub open spec fn model(&self) -> SlotModel {
        match self {
            SlotState::InFlight => SlotModel::InFlight,
            SlotState::Ready(b) => SlotModel::Ready(b.model()),
        }
    }
}

impl Slot {
    pub open spec fn model(&self) -> (Seq<u8>, SlotModel) {
        (self.key@, self.state.model())
    }
}

/// A ready slot holds a well-formed bitmap.
pub open spec fn slot_wf(s: SlotModel) -> bool {
    match s {
        SlotModel::Ready(bm) => bm_wf(bm),
        SlotModel::InFlight => true,
    }
}

/// Some slot holds the key.
pub open spec fn has_key(m: Seq<(Seq<u8>, SlotModel)>, k: Seq<u8>) -> bool {
    exists|i: int| 0 <= i < m.len() && m[i].0 == k
}

/// The index of the slot holding the key (unique under `unique_keys`).
pub open spec fn key_index(m: Seq<(Seq<u8>, SlotModel)>, k: Seq<u8>) -> int {
    choose|i: int| 0 <= i < m.len() && m[i].0 == k
}

/// The state recorded for the key.
pub open spec fn entry_of(m: Seq<(Seq<u8>, SlotModel)>, k: Seq<u8>) -> SlotModel {
    m[key_index(m, k)].1
}

/// No two slots hold the same key.
pub open spec fn unique_keys(m: Seq<(Seq<u8>, SlotModel)>) -> bool {
    forall|i: int, j: int| 0 <= i < j < m.len() ==> m[i].0 != m[j].0
}

/// How many slots are ready (hold a decoded bitmap).
pub open spec fn ready_count(m: Seq<(Seq<u8>, SlotModel)>) -> nat
    decreases m.len(),
{
    if m.len() == 0 {
        0
    } else {
        ready_count(m.drop_last()) + (if m.last().1 is Ready {
            1nat
        } else {
            0nat
        })
    }
}

/// The slot moved to the most-recent position, its state unchanged.
pub open spec fn spec_promote(m: Seq<(Seq<u8>, SlotModel)>, i: int) -> Seq<(Seq<u8>, SlotModel)> {
    m.remove(i).push(m[i])
}

/// The least index of a ready slot: the least-recently-used decoded bitmap.
pub open spec fn first_ready_index(m: Seq<(Seq<u8>, SlotModel)>) -> int {
    choose|i: int|
        0 <= i < m.len() && m[i].1 is Ready && (forall|q: int| 0 <= q < i ==> !(m[q].1 is Ready))
}

/// Completing the producer's work: the key's slot becomes ready with the
/// produced bitmap and moves to the most-recent position; if that leaves more
/// ready slots than the capacity allows, the least-recently-used ready slot
/// is evicted. In-flight slots are never evicted.
pub open spec fn spec_complete_ok(
    m: Seq<(Seq<u8>, SlotModel)>,
    k: Seq<u8>,
    bm: BitmapModel,
    cap: int,
) -> Seq<(Seq<u8>, SlotModel)> {
    let m1 = m.remove(key_index(m, k)).push((k, SlotModel::Ready(bm)));
    if ready_count(m1) > cap {
        m1.remove(first_ready_index(m1))
    } else {
        m1
    }
}

proof fn lemma_ready_count_push(m: Seq<(Seq<u8>, SlotModel)>, e: (Seq<u8>, SlotModel))
    ensures
        ready_count(m.push(e)) == ready_count(m) + (if e.1 is Ready {
            1nat
        } else {
            0nat
        }),
{
    assert(m.push(e).drop_last() =~= m);
    assert(m.push(e).last() == e);
}

proof fn lemma_ready_count_remove(m: Seq<(Seq<u8>, SlotModel)>, i: int)
    requires
        0 <= i < m.len(),
    ensures
        ready_count(m) == ready_count(m.remove(i)) + (if m[i].1 is Ready {
            1nat
        } else {
            0nat
        }),
    decreases m.len(),
{
    if i == m.len() - 1 {
        assert(m.remove(i) =~= m.drop_last());
    } else {
        let t = m.drop_last();
        assert(m.remove(i).drop_last() =~= t.remove(i));
        assert(m.remove(i).last() == m.last());
        lemma_ready_count_remove(t, i);
        assert(t[i] == m[i]);
    }
}

proof fn lemma_ready_count_zero(m: Seq<(Seq<u8>, SlotModel)>)
    requires
        forall|i: int| 0 <= i < m.len() ==> !(#[trigger] m[i].1 is Ready),
    ensures
        ready_count(m) == 0,
    decreases m.len(),
{
    if m.len() > 0 {
        let t = m.drop_last();
        assert(forall|i: int| 0 <= i < t.len() ==> t[i] == m[i]);
        lemma_ready_count_zero(t);
    }
}

/// With unique keys, the slot found at `i` is the slot of its key.
proof fn lemma_key_index_is(m: Seq<(Seq<u8>, SlotModel)>, k: Seq<u8>, i: int)
    requires
        unique_keys(m),
        0 <= i < m.len(),
        m[i].0 == k,
    ensures
        has_key(m, k),
        key_index(m, k) == i,
{
    assert(has_key(m, k));
    let c = key_index(m, k);
    assert(0 <= c < m.len() && m[c].0 == k);
    if c < i {
        assert(m[c].0 != m[i].0);
    } else if i < c {
        assert(m[i].0 != m[c].0);
    }
}

/// The least ready index is what `first_ready_index` picks.
proof fn lemma_first_ready_is(m: Seq<(Seq<u8>, SlotModel)>, j: int)
    requires
        0 <= j < m.len(),
        m[j].1 is Ready,
        forall|q: int| 0 <= q < j ==> !(#[trigger] m[q].1 is Ready),
    ensures
        first_ready_index(m) == j,
{
    let c = first_ready_index(m);
    assert(0 <= c < m.len() && m[c].1 is Ready && (forall|q: int| 0 <= q < c ==> !(m[q].1
        is Ready)));
}

/// Effect of marking the key's in-flight slot ready and most recent.
proof fn lemma_complete_ok_effect(
    m0: Seq<(Seq<u8>, SlotModel)>,
    k: Seq<u8>,
    bm: BitmapModel,
    i: int,
)
    requires
        unique_keys(m0),
        forall|q: int| 0 <= q < m0.len() ==> slot_wf(#[trigger] m0[q].1),
        0 <= i < m0.len(),
        m0[i].0 == k,
        m0[i].1 is InFlight,
        bm_wf(bm),
    ensures
        ({
            let m1 = m0.remove(i).push((k, SlotModel::Ready(bm)));
            &&& unique_keys(m1)
            &&& ready_count(m1) == ready_count(m0) + 1
            &&& forall|q: int| 0 <= q < m1.len() ==> slot_wf(#[trigger] m1[q].1)
            &&& key_index(m1, k) == m1.len() - 1
            &&& has_key(m1, k)
            &&& entry_of(m1, k) == SlotModel::Ready(bm)
        }),
{
    let m1 = m0.remove(i).push((k, SlotModel::Ready(bm)));
    lemma_ready_count_remove(m0, i);
    lemma_ready_count_push(m0.remove(i), (k, SlotModel::Ready(bm)));
    assert forall|p: int, q: int| 0 <= p < q < m1.len() implies m1[p].0 != m1[q].0 by {
        let mr = m0.remove(i);
        if q < m1.len() - 1 {
            assert(m1[p] == mr[p] && m1[q] == mr[q]);
        } else {
            assert(m1[q].0 == k);
            if p < i {
                assert(m1[p] == m0[p]);
                assert(m0[p].0 != m0[i].0);
            } else {
                assert(m1[p] == m0[p + 1]);
                assert(m0[i].0 != m0[p + 1].0);
            }
        }
    }
    lemma_key_index_is(m1, k, m1.len() - 1);
}

/// Effect of evicting the least-recently-used ready slot right after a
/// completion: the fresh entry, last in the order, survives.
proof fn lemma_evict_effect(m1: Seq<(Seq<u8>, SlotModel)>, k: Seq<u8>, bm: BitmapModel, j: int)
    requires
        unique_keys(m1),
        forall|q: int| 0 <= q < m1.len() ==> slot_wf(#[trigger] m1[q].1),
        m1.len() >= 1,
        m1.last() == (k, SlotModel::Ready(bm)),
        ready_count(m1) >= 2,
        0 <= j < m1.len(),
        m1[j].1 is Ready,
        forall|q: int| 0 <= q < j ==> !(#[trigger] m1[q].1 is Ready),
    ensures
        j < m1.len() - 1,
        ({
            let m2 = m1.remove(j);
            &&& unique_keys(m2)
            &&& ready_count(m2) == ready_count(m1) - 1
            &&& forall|q: int| 0 <= q < m2.len() ==> slot_wf(#[trigger] m2[q].1)
            &&& key_index(m2, k) == m2.len() - 1
            &&& has_key(m2, k)
            &&& entry_of(m2, k) == SlotModel::Ready(bm)
        }),
{
    if j == m1.len() - 1 {
        lemma_ready_count_zero(m1.drop_last());
        assert(ready_count(m1) == ready_count(m1.drop_last()) + 1);
        assert(false);
    }
    let m2 = m1.remove(j);
    lemma_ready_count_remove(m1, j);
    assert(m2[m2.len() - 1] == m1[m1.len() - 1]);
    assert forall|q: int| 0 <= q < m2.len() implies slot_wf(#[trigger] m2[q].1) by {
        if q < j {
            assert(m2[q] == m1[q]);
        } else {
            assert(m2[q] == m1[q + 1]);
        }
    }
    assert forall|p: int, q: int| 0 <= p < q < m2.len() implies m2[p].0 != m2[q].0 by {
        if q < j {
            assert(m2[p] == m1[p] && m2[q] == m1[q]);
        } else if p < j {
            assert(m2[p] == m1[p] && m2[q] == m1[q + 1]);
        } else {
            assert(m2[p] == m1[p + 1] && m2[q] == m1[q + 1]);
        }
    }
    lemma_key_index_is(m2, k, m2.len() - 1);
}

/// The single-flight cache.
pub struct BitmapCache {
    pub capacity: usize,
    pub slots: Vec<Slot>,
}

/// What a lookup tells its caller: take this decoded bitmap; or: you are the
/// one producer, fetch and decode; or: a producer is already at work on this
/// key, wait for it.
pub enum Flight {
    Ready(Bitmap),
    Producer,
    Waiter,
}

impl BitmapCache {
    /// The cache's model: its slots, least recently used first.
    pub open spec fn model(&self) -> Seq<(Seq<u8>, SlotModel)> {
        self.slots@.map_values(|s: Slot| s.model())
    }

    pub open spec fn wf(&self) -> bool {
        &&& self.capacity >= 1
        &&& unique_keys(self.model())
        &&& ready_count(self.model()) <= self.capacity
        &&& forall|i: int| 0 <= i < self.model().len() ==> slot_wf(#[trigger] self.model()[i].1)
    }

    pub fn new(capacity: usize) -> (r: BitmapCache)
        requires
            capacity >= 1,
        ensures
            r.wf(),
            r.capacity == capacity,
            r.model().len() == 0,
    {
        let r = BitmapCache { capacity, slots: Vec::new() };
        proof {
            assert(r.model() =~= Seq::<(Seq<u8>, SlotModel)>::empty());
        }
        r
    }

    /// The slot index holding the key, scanning from the least recent.
    fn find_slot(&self, key: &Vec<u8>) -> (r: Option<usize>)
        ensures
            match r {
                Some(i) => i < self.model().len() && self.model()[i as int].0 == key@,
                None => !has_key(self.model(), key@),
            },
    {
        let n = self.slots.len();
        let mut i: usize = 0;
        while i < n
            invariant
                n == self.slots@.len(),
                i <= n,
                forall|j: int| 0 <= j < i ==> self.model()[j].0 != key@,
            decreases n - i,
        {
            if crate::bytes::bytes_eq(&self.slots[i].key, key) {
                return Some(i);
            }
            i = i + 1;
        }
        None
    }

    /// How many slots hold a decoded bitmap.
    fn count_ready(&self) -> (rc: usize)
        ensures
            rc == ready_count(self.model()),
    {
        let n = self.slots.len();
        let mut c: usize = 0;
        let mut i: usize = 0;
        while i < n
            invariant
                n == self.slots@.len(),
                i <= n,
                c <= i,
                c == ready_count(self.model().take(i as int)),
            decreases n - i,
        {
            proof {
                assert(self.model().take(i + 1).drop_last() =~= self.model().take(i as int));
                assert(self.model().take(i + 1).last() == self.model()[i as int]);
            }
            match &self.slots[i].state {
                SlotState::Ready(_) => {
                    c = c + 1;
                },
                SlotState::InFlight => {},
            }
            i = i + 1;
        }
        proof {
            assert(self.model().take(n as int) =~= self.model());
        }
        c
    }

    /// The least-recent ready slot; there is one whenever any slot is ready.
    fn find_first_ready(&self) -> (j: usize)
        requires
            ready_count(self.model()) > 0,
        ensures
            j < self.model().len(),
            self.model()[j as int].1 is Ready,
            forall|q: int| 0 <= q < j ==> !(#[trigger] self.model()[q].1 is Ready),
            first_ready_index(self.model()) == j,
    {
        let n = self.slots.len();
        let mut i: usize = 0;
        while i < n
            invariant
                n == self.slots@.len(),
                i <= n,
                forall|q: int| 0 <= q < i ==> !(#[trigger] self.model()[q].1 is Ready),
            decreases n - i,
        {
            match &self.slots[i].state {
                SlotState::Ready(_) => {
                    proof {
                        lemma_first_ready_is(self.model(), i as int);
                    }
                    return i;
                },
                SlotState::InFlight => {},
            }
            i = i + 1;
        }
        proof {
            lemma_ready_count_zero(self.model());
            assert(false);
        }
        0
    }

    /// Consult the cache for a source key. A ready slot answers at once with
    /// a copy of the decoded bitmap and becomes the most recent. An in-flight
    /// slot tells the caller to wait: a producer is already fetching this
    /// key. An absent key makes this caller the producer, and the in-flight
    /// marker it leaves behind sends every later caller into the waiter arm
    /// until the producer completes.
    pub fn lookup(&mut self, key: &Vec<u8>) -> (r: Flight)
        requires
            old(self).wf(),
        ensures
            final(self).wf(),
            final(self).capacity == old(self).capacity,
            match r {
                Flight::Ready(b) => {
                    &&& has_key(old(self).model(), key@)
                    &&& entry_of(old(self).model(), key@) == SlotModel::Ready(b.model())
                    &&& b.wf()
                    &&& final(self).model() == spec_promote(
                        old(self).model(),
                        key_index(old(self).model(), key@),
                    )
                    &&& has_key(final(self).model(), key@)
                    &&& entry_of(final(self).model(), key@) == SlotModel::Ready(b.model())
                },
                Flight::Waiter => {
                    &&& has_key(old(self).model(), key@)
                    &&& entry_of(old(self).model(), key@) == SlotModel::InFlight
                    &&& final(self).model() == old(self).model()
                },
                Flight::Producer => {
                    &&& !has_key(old(self).model(), key@)
                    &&& final(self).model() == old(self).model().push(
                        (key@, SlotModel::InFlight),
                    )
                    &&& has_key(final(self).model(), key@)
                    &&& entry_of(final(self).model(), key@) == SlotModel::InFlight
                },
            },
    {
        let ghost m0 = self.model();
        match self.find_slot(key) {
            None => {
                let n = key.len();
                let kcopy = crate::bytes::subvec(key, 0, n);
                proof {
                    assert(kcopy@ =~= key@);
                }
                self.slots.push(Slot { key: kcopy, state: SlotState::InFlight });
                proof {
                    assert(self.model() =~= m0.push((key@, SlotModel::InFlight)));
                    lemma_ready_count_push(m0, (key@, SlotModel::InFlight));
                    lemma_key_index_is(self.model(), key@, m0.len() as int);
                }
                Flight::Producer
            },
            Some(i) => {
                proof {
                    lemma_key_index_is(m0, key@, i as int);
                }
                let slot = self.slots.remove(i);
                let Slot { key: sk, state } = slot;
                match state {
                    SlotState::Ready(b) => {
                        let copy = b.duplicate();
                        self.slots.push(Slot { key: sk, state: SlotState::Ready(b) });
                        proof {
                            assert(self.model() =~= spec_promote(m0, i as int));
                            lemma_ready_count_remove(m0, i as int);
                            lemma_ready_count_push(m0.remove(i as int), m0[i as int]);
                            lemma_key_index_is(self.model(), key@, self.model().len() - 1);
                        }
                        Flight::Ready(copy)
                    },
                    SlotState::InFlight => {
                        self.slots.insert(i, Slot { key: sk, state: SlotState::InFlight });
                        proof {
                            assert(self.model() =~= m0);
                        }
                        Flight::Waiter
                    },
                }
            },
        }
    }

    /// Turn the key's in-flight slot into a ready one holding `bmp`, moved to
    /// the most-recent position.
    fn mark_ready(&mut self, key: &Vec<u8>, bmp: Bitmap)
        requires
            old(self).wf(),
            bmp.wf(),
            has_key(old(self).model(), key@),
            entry_of(old(self).model(), key@) == SlotModel::InFlight,
        ensures
            final(self).capacity == old(self).capacity,
            final(self).model() == old(self).model().remove(
                key_index(old(self).model(), key@),
            ).push((key@, SlotModel::Ready(bmp.model()))),
            unique_keys(final(self).model()),
            ready_count(final(self).model()) == ready_count(old(self).model()) + 1,
            forall|q: int|
                0 <= q < final(self).model().len() ==> slot_wf(#[trigger] final(self).model()[q].1),
            key_index(final(self).model(), key@) == final(self).model().len() - 1,
            has_key(final(self).model(), key@),
            entry_of(final(self).model(), key@) == SlotModel::Ready(bmp.model()),
            final(self).model().last() == (key@, SlotModel::Ready(bmp.model())),
    {
        let ghost m0 = self.model();
        let i = match self.find_slot(key) {
            Some(i) => i,
            None => {
                proof {
                    assert(false);
                }
                return ;
            },
        };
        proof {
            lemma_key_index_is(m0, key@, i as int);
        }
        let slot = self.slots.remove(i);
        let Slot { key: sk, state: _ } = slot;
        self.slots.push(Slot { key: sk, state: SlotState::Ready(bmp) });
        proof {
            assert(self.model() =~= m0.remove(i as int).push(
                (key@, SlotModel::Ready(bmp.model())),
            ));
            lemma_complete_ok_effect(m0, key@, bmp.model(), i as int);
        }
    }

    /// Evict the least-recently-used ready slot; the freshly completed last
    /// slot survives.
    #[verifier::rlimit(60)]
    fn evict_lru(&mut self)
        requires
            ready_count(old(self).model()) > 0,
        ensures
            final(self).capacity == old(self).capacity,
            final(self).model() == old(self).model().remove(
                first_ready_index(old(self).model()),
            ),
            ({
                let fr = first_ready_index(old(self).model());
                &&& 0 <= fr < old(self).model().len()
                &&& old(self).model()[fr].1 is Ready
                &&& forall|q: int| 0 <= q < fr ==> !(#[trigger] old(self).model()[q].1 is Ready)
            }),
    {
        let ghost m1 = self.model();
        let ghost s1 = self.slots@;
        let j = self.find_first_ready();
        let _evicted = self.slots.remove(j);
        proof {
            let ji = j as int;
            let m2 = m1.remove(ji);
            assert forall|q: int| 0 <= q < m2.len() implies self.model()[q] == m2[q] by {
                if q < ji {
                    assert(self.slots@[q] == s1[q]);
                    assert(m2[q] == m1[q]);
                } else {
                    assert(self.slots@[q] == s1[q + 1]);
                    assert(m2[q] == m1[q + 1]);
                }
            }
            assert(self.model() =~= m2);
        }
    }

    /// The producer hands in its decoded bitmap. The key's slot becomes ready
    /// and most recent; if the capacity is now exceeded, the least-recently-
    /// used ready slot is evicted — never the fresh one, and never an
    /// in-flight one, so every waiter still finds exactly the producer's
    /// bitmap under the key.
    pub fn complete_ok(&mut self, key: &Vec<u8>, bmp: Bitmap)
        requires
            old(self).wf(),
            bmp.wf(),
            has_key(old(self).model(), key@),
            entry_of(old(self).model(), key@) == SlotModel::InFlight,
        ensures
            final(self).wf(),
            final(self).capacity == old(self).capacity,
            final(self).model() == spec_complete_ok(
                old(self).model(),
                key@,
                bmp.model(),
                old(self).capacity as int,
            ),
            has_key(final(self).model(), key@),
            entry_of(final(self).model(), key@) == SlotModel::Ready(bmp.model()),
    {
        self.mark_ready(key, bmp);
        let ghost m1 = self.model();
        let rc = self.count_ready();
        if rc > self.capacity {
            self.evict_lru();
            proof {
                lemma_evict_effect(m1, key@, bmp.model(), first_ready_index(m1));
            }
        }
    }

    /// The producer's fetch or decode failed: the in-flight marker is
    /// removed and nothing is inserted, so the next request for the key
    /// becomes a fresh producer and retries the whole fetch and decode.
    pub fn complete_err(&mut self, key: &Vec<u8>)
        requires
            old(self).wf(),
            has_key(old(self).model(), key@),
            entry_of(old(self).model(), key@) == SlotModel::InFlight,
        ensures
            final(self).wf(),
            final(self).capacity == old(self).capacity,
            final(self).model() == old(self).model().remove(
                key_index(old(self).model(), key@),
            ),
            !has_key(final(self).model(), key@),
    {
        let ghost m0 = self.model();
        let i = match self.find_slot(key) {
            Some(i) => i,
            None => {
                proof {
                    assert(false);
                }
                return ;
            },
        };
        proof {
            lemma_key_index_is(m0, key@, i as int);
        }
        let _removed = self.slots.remove(i);
        proof {
            assert(self.model() =~= m0.remove(i as int));
            lemma_ready_count_remove(m0, i as int);
            assert forall|j: int| 0 <= j < self.model().len() implies self.model()[j].0 != key@ by {
                if j < i as int {
                    assert(self.model()[j] == m0[j]);
                } else {
                    assert(self.model()[j] == m0[j + 1]);
                }
            }
        }
    }
}

/// Single-flight: a lookup creates a producer exactly when no slot holds the
/// key, and the in-flight marker it records means every further lookup of
/// that key finds the slot and waits — a second concurrent producer for the
/// same key is impossible until the first completes.
pub proof fn lemma_single_flight(m: Seq<(Seq<u8>, SlotModel)>, k: Seq<u8>)
    requires
        unique_keys(m),
        !has_key(m, k),
    ensures
        unique_keys(m.push((k, SlotModel::InFlight))),
        has_key(m.push((k, SlotModel::InFlight)), k),
        entry_of(m.push((k, SlotModel::InFlight)), k) == SlotModel::InFlight,
{
    let m2 = m.push((k, SlotModel::InFlight));
    assert(forall|i: int| 0 <= i < m.len() ==> m2[i] == m[i]);
    lemma_key_index_is(m2, k, m.len() as int);
}

/// A failed producer leaves no trace: with its in-flight slot removed, the
/// key is absent again, so a later request retries the full fetch and decode.
pub proof fn lemma_failed_producer_retries(m: Seq<(Seq<u8>, SlotModel)>, k: Seq<u8>)
    requires
        unique_keys(m),
        has_key(m, k),
    ensures
        !has_key(m.remove(key_index(m, k)), k),
{
    let i = key_index(m, k);
    assert(0 <= i < m.len() && m[i].0 == k);
    let m2 = m.remove(i);
    assert forall|j: int| 0 <= j < m2.len() implies m2[j].0 != k by {
        if j < i {
            assert(m2[j] == m[j]);
        } else {
            assert(m2[j] == m[j + 1]);
        }
    }
}

} // verus!
