//! The player registry and the respawn-grace tracker.
//!
//! Both are association lists keyed by client identity with unique keys;
//! the order of registry entries is the broadcast order, so full-state
//! snapshots are deterministic.
use vstd::prelude::*;

use crate::player::{PlayerRecord, RecordV};

verus! {

/// Length of the respawn grace window, in milliseconds.
pub const GRACE_MS: u64 = 500;

/// Whether `s` associates `id` with something.
pub open spec fn has_id<T>(s: Seq<(u64, T)>, id: u64) -> bool {
    exists|i: int| 0 <= i < s.len() && s[i].0 == id
}

/// The index of `id` in `s`; meaningful when keys are unique and `id` is
/// present.
pub open spec fn idx_of<T>(s: Seq<(u64, T)>, id: u64) -> int {
    choose|i: int| 0 <= i < s.len() && s[i].0 == id
}

/// The value associated with `id`; meaningful when keys are unique and
/// `id` is present.
pub open spec fn val_of<T>(s: Seq<(u64, T)>, id: u64) -> T {
    s[idx_of(s, id)].1
}

/// No identity occurs twice.
pub open spec fn unique_ids<T>(s: Seq<(u64, T)>) -> bool {
    forall|i: int, j: int| 0 <= i < j < s.len() ==> s[i].0 != s[j].0
}

/// `s` with the association for `id` set to `v`: replaced in place when
/// present, appended at the end otherwise.
pub open spec fn assoc_set<T>(s: Seq<(u64, T)>, id: u64, v: T) -> Seq<(u64, T)> {
    if has_id(s, id) {
        s.update(idx_of(s, id), (id, v))
    } else {
        s.push((id, v))
    }
}

/// `s` without the association for `id`, when present.
pub open spec fn assoc_remove<T>(s: Seq<(u64, T)>, id: u64) -> Seq<(u64, T)> {
    if has_id(s, id) {
        s.remove(idx_of(s, id))
    } else {
        s
    }
}

/// Setting an association makes the identity present.
pub proof fn lemma_assoc_set_has<T>(s: Seq<(u64, T)>, id: u64, v: T)
    ensures
        has_id(assoc_set(s, id, v), id),
{
    if has_id(s, id) {
        let i = idx_of(s, id);
        assert(assoc_set(s, id, v)[i].0 == id);
    } else {
        assert(assoc_set(s, id, v)[s.len() as int].0 == id);
    }
}

/// Under unique keys, setting an association stores exactly that value,
/// and the keys stay unique.
pub proof fn lemma_assoc_set_val<T>(s: Seq<(u64, T)>, id: u64, v: T)
    requires
        unique_ids(s),
    ensures
        has_id(assoc_set(s, id, v), id),
        val_of(assoc_set(s, id, v), id) == v,
        unique_ids(assoc_set(s, id, v)),
{
    let s2 = assoc_set(s, id, v);
    if has_id(s, id) {
        let i = idx_of(s, id);
        assert(0 <= i < s.len() && s[i].0 == id);
        assert forall|a: int, b: int| 0 <= a < b < s2.len() implies s2[a].0 != s2[b].0 by {
            assert(s2[a].0 == s[a].0);
            assert(s2[b].0 == s[b].0);
        }
        lemma_idx_unique(s2, id, i);
    } else {
        assert forall|a: int, b: int| 0 <= a < b < s2.len() implies s2[a].0 != s2[b].0 by {
            if b < s.len() {
                assert(s2[a].0 == s[a].0 && s2[b].0 == s[b].0);
            } else {
                assert(s2[a].0 == s[a].0 && s2[b].0 == id);
                assert(s[a].0 != id);
            }
        }
        lemma_idx_unique(s2, id, s.len() as int);
    }
}

/// Under unique keys, removing an association removes the identity, and
/// the keys stay unique.
pub proof fn lemma_assoc_remove_absent<T>(s: Seq<(u64, T)>, id: u64)
    requires
        unique_ids(s),
    ensures
        !has_id(assoc_remove(s, id), id),
        unique_ids(assoc_remove(s, id)),
{
    if has_id(s, id) {
        let i = idx_of(s, id);
        assert(0 <= i < s.len() && s[i].0 == id);
        let s2 = s.remove(i);
        assert forall|k: int| 0 <= k < s2.len() implies s2[k].0 != id by {
            if k < i {
                assert(s2[k] == s[k]);
            } else {
                assert(s2[k] == s[k + 1]);
            }
        }
        assert forall|a: int, b: int| 0 <= a < b < s2.len() implies s2[a].0 != s2[b].0 by {
            let a2 = if a < i { a } else { a + 1 };
            let b2 = if b < i { b } else { b + 1 };
            assert(s2[a] == s[a2]);
            assert(s2[b] == s[b2]);
        }
    }
}

/// Under unique keys, any index holding `id` is the index `idx_of` picks.
pub proof fn lemma_idx_unique<T>(s: Seq<(u64, T)>, id: u64, i: int)
    requires
        unique_ids(s),
        0 <= i < s.len(),
        s[i].0 == id,
    ensures
        has_id(s, id),
        idx_of(s, id) == i,
        val_of(s, id) == s[i].1,
{
    assert(has_id(s, id));
    let j = idx_of(s, id);
    assert(0 <= j < s.len() && s[j].0 == id);
    if i != j {
        if i < j {
            assert(s[i].0 != s[j].0);
        } else {
            assert(s[j].0 != s[i].0);
        }
    }
}

/// The view of a snapshot vector of registry entries.
pub open spec fn pairs_view(s: Seq<(u64, PlayerRecord)>) -> Seq<(u64, RecordV)> {
    s.map_values(|e: (u64, PlayerRecord)| (e.0, e.1@))
}

/// The authoritative mapping from connected client identity to that
/// client's record. Absence of an identity means "not connected".
pub struct Registry {
    entries: Vec<(u64, PlayerRecord)>,
}

impl View for Registry {
    type V = Seq<(u64, RecordV)>;

    closed spec fn view(&self) -> Seq<(u64, RecordV)> {
        pairs_view(self.entries@)
    }
}

impl Registry {
    /// Unique identities, and every stored record well formed.
    pub open spec fn inv(self) -> bool {
        &&& unique_ids(self@)
        &&& forall|i: int| 0 <= i < self@.len() ==> (#[trigger] self@[i].1).wf()
    }

    /// An empty registry.
    pub fn new() -> (r: Self)
        ensures
            r@ =~= Seq::<(u64, RecordV)>::empty(),
            r.inv(),
    {
        Registry { entries: Vec::new() }
    }

    /// How many clients are connected.
    pub fn len(&self) -> (r: usize)
        ensures
            r == self@.len(),
    {
        self.entries.len()
    }

    /// The identity of the entry at position `i`.
    pub fn id_at(&self, i: usize) -> (r: u64)
        requires
            i < self@.len(),
        ensures
            r == self@[i as int].0,
    {
        self.entries[i].0
    }

    /// The record of the entry at position `i`.
    pub fn record_at(&self, i: usize) -> (r: &PlayerRecord)
        requires
            i < self@.len(),
        ensures
            r@ == self@[i as int].1,
    {
        &self.entries[i].1
    }

    /// The position of `id`, if connected.
    fn find(&self, id: u64) -> (r: Option<usize>)
        ensures
            match r {
                Some(i) => i < self@.len() && self@[i as int].0 == id,
                None => !has_id(self@, id),
            },
    {
        let n = self.entries.len();
        let mut k: usize = 0;
        while k < n
            invariant
                n == self@.len(),
                k <= n,
                forall|j: int| 0 <= j < k ==> self@[j].0 != id,
            decreases n - k,
        {
            if self.entries[k].0 == id {
                return Some(k);
            }
            k = k + 1;
        }
        None
    }

    /// Whether `id` is connected.
    pub fn contains(&self, id: u64) -> (r: bool)
        requires
            self.inv(),
        ensures
            r == has_id(self@, id),
    {
        match self.find(id) {
            Some(_) => true,
            None => false,
        }
    }

    /// The record of `id`, if connected.
    pub fn get(&self, id: u64) -> (r: Option<&PlayerRecord>)
        requires
            self.inv(),
        ensures
            match r {
                Some(p) => has_id(self@, id) && p@ == val_of(self@, id),
                None => !has_id(self@, id),
            },
    {
        match self.find(id) {
            Some(i) => {
                proof {
                    lemma_idx_unique(self@, id, i as int);
                }
                Some(&self.entries[i].1)
            },
            None => None,
        }
    }

    /// Connects or replaces `id` with `rec`: an existing entry is replaced
    /// in place, a new identity is appended at the end of the broadcast
    /// order.
    pub fn insert(&mut self, id: u64, rec: PlayerRecord)
        requires
            old(self).inv(),
            rec@.wf(),
        ensures
            final(self).inv(),
            old(self)@.len() <= final(self)@.len() <= old(self)@.len() + 1,
            final(self)@ == assoc_set(old(self)@, id, rec@),
            has_id(final(self)@, id),
            val_of(final(self)@, id) == rec@,
    {
        let ghost pre = self@;
        match self.find(id) {
            Some(i) => {
                proof {
                    lemma_idx_unique(pre, id, i as int);
                }
                self.entries[i] = (id, rec);
                proof {
                    assert(self@ =~= pre.update(i as int, (id, rec@)));
                    lemma_idx_unique(self@, id, i as int);
                }
            },
            None => {
                self.entries.push((id, rec));
                proof {
                    assert(self@ =~= pre.push((id, rec@)));
                    lemma_idx_unique(self@, id, pre.len() as int);
                }
            },
        }
    }

    /// Disconnects `id`; nothing happens when it was already absent.
    pub fn remove(&mut self, id: u64)
        requires
            old(self).inv(),
        ensures
            final(self).inv(),
            final(self)@ == assoc_remove(old(self)@, id),
            !has_id(final(self)@, id),
    {
        let ghost pre = self@;
        match self.find(id) {
            Some(i) => {
                proof {
                    lemma_idx_unique(pre, id, i as int);
                }
                self.entries.remove(i);
                proof {
                    assert(self@ =~= pre.remove(i as int));
                    assert forall|k: int| 0 <= k < self@.len() implies self@[k].0 != id by {
                        if k < i {
                            assert(self@[k] == pre[k]);
                        } else {
                            assert(self@[k] == pre[k + 1]);
                        }
                    }
                }
            },
            None => {
                proof {
                    assert(self@ =~= pre);
                }
            },
        }
    }

    /// A copy of the whole registry in broadcast order, for a full-state
    /// synchronization message.
    pub fn snapshot(&self) -> (r: Vec<(u64, PlayerRecord)>)
        ensures
            pairs_view(r@) == self@,
    {
        let n = self.entries.len();
        let mut out: Vec<(u64, PlayerRecord)> = Vec::new();
        let mut k: usize = 0;
        while k < n
            invariant
                n == self@.len(),
                k <= n,
                pairs_view(out@) =~= self@.subrange(0, k as int),
            decreases n - k,
        {
            let id = self.entries[k].0;
            let rec = self.entries[k].1.duplicate();
            let ghost prev = out@;
            out.push((id, rec));
            proof {
                assert(pairs_view(prev).len() == prev.len());
                assert(pairs_view(prev).len() == k as int);
                assert(prev.len() == k as int);
                assert(out@ == prev.push((id, rec)));
                assert forall|j: int| 0 <= j < out@.len() implies pairs_view(out@)[j] == self@.subrange(
                    0,
                    k as int + 1,
                )[j] by {
                    if j < k as int {
                        assert(out@[j] == prev[j]);
                        assert(pairs_view(prev)[j] == self@.subrange(0, k as int)[j]);
                    } else {
                        assert(out@[j] == (id, rec));
                        assert(self@[k as int] == (id, rec@));
                    }
                }
                assert(pairs_view(out@) =~= self@.subrange(0, k as int + 1));
            }
            k = k + 1;
        }
        proof {
            assert(self@.subrange(0, n as int) =~= self@);
        }
        out
    }
}

/// Remembers, per client identity, when that client last (re)spawned;
/// position updates are suppressed while the window is open.
pub struct GraceTracker {
    entries: Vec<(u64, u64)>,
}

impl View for GraceTracker {
    type V = Seq<(u64, u64)>;

    closed spec fn view(&self) -> Seq<(u64, u64)> {
        self.entries@
    }
}

/// Whether `id` is inside its respawn grace window at time `now`.
pub open spec fn spec_in_grace(s: Seq<(u64, u64)>, id: u64, now: u64) -> bool {
    has_id(s, id) && now < val_of(s, id) + GRACE_MS
}

impl GraceTracker {
    /// Unique identities.
    pub open spec fn inv(self) -> bool {
        unique_ids(self@)
    }

    /// An empty tracker.
    pub fn new() -> (r: Self)
        ensures
            r@ =~= Seq::<(u64, u64)>::empty(),
            r.inv(),
    {
        GraceTracker { entries: Vec::new() }
    }

    /// The position of `id`, if tracked.
    fn find(&self, id: u64) -> (r: Option<usize>)
        ensures
            match r {
                Some(i) => i < self@.len() && self@[i as int].0 == id,
                None => !has_id(self@, id),
            },
    {
        let n = self.entries.len();
        let mut k: usize = 0;
        while k < n
            invariant
                n == self@.len(),
                k <= n,
                forall|j: int| 0 <= j < k ==> self@[j].0 != id,
            decreases n - k,
        {
            if self.entries[k].0 == id {
                return Some(k);
            }
            k = k + 1;
        }
        None
    }

    /// Marks `id` as having (re)spawned at time `now`.
    pub fn set(&mut self, id: u64, now: u64)
        requires
            old(self).inv(),
        ensures
            final(self).inv(),
            final(self)@ == assoc_set(old(self)@, id, now),
            has_id(final(self)@, id),
            val_of(final(self)@, id) == now,
    {
        let ghost pre = self@;
        match self.find(id) {
            Some(i) => {
                proof {
                    lemma_idx_unique(pre, id, i as int);
                }
                self.entries[i] = (id, now);
                proof {
                    assert(self@ =~= pre.update(i as int, (id, now)));
                    lemma_idx_unique(self@, id, i as int);
                }
            },
            None => {
                self.entries.push((id, now));
                proof {
                    assert(self@ =~= pre.push((id, now)));
                    lemma_idx_unique(self@, id, pre.len() as int);
                }
            },
        }
    }

    /// Whether `id` is inside its grace window at time `now`.
    pub fn in_grace(&self, id: u64, now: u64) -> (r: bool)
        requires
            self.inv(),
        ensures
            r == spec_in_grace(self@, id, now),
    {
        match self.find(id) {
            Some(i) => {
                proof {
                    lemma_idx_unique(self@, id, i as int);
                }
                let t = self.entries[i].1;
                if t > now {
                    true
                } else {
                    now - t < GRACE_MS
                }
            },
            None => false,
        }
    }

    /// Drops every entry whose grace window has closed at time `now`.
    pub fn purge(&mut self, now: u64)
        requires
            old(self).inv(),
        ensures
            final(self).inv(),
            final(self)@ == old(self)@.filter(|e: (u64, u64)| now < e.1 + GRACE_MS),
    {
        let ghost pre = self@;
        let ghost pred = |e: (u64, u64)| now < e.1 + GRACE_MS;
        let n = self.entries.len();
        let mut out: Vec<(u64, u64)> = Vec::new();
        let mut k: usize = 0;
        while k < n
            invariant
                n == pre.len(),
                self@ == pre,
                k <= n,
                out@ =~= pre.subrange(0, k as int).filter(pred),
                pred == (|e: (u64, u64)| now < e.1 + GRACE_MS),
            decreases n - k,
        {
            let e = self.entries[k];
            let keep = if e.1 > now {
                true
            } else {
                now - e.1 < GRACE_MS
            };
            proof {
                assert(pre.subrange(0, k as int + 1).drop_last() =~= pre.subrange(0, k as int));
                reveal(Seq::filter);
            }
            if keep {
                out.push(e);
            }
            k = k + 1;
        }
        proof {
            assert(pre.subrange(0, n as int) =~= pre);
        }
        self.entries = out;
        proof {
            assert forall|i: int, j: int| 0 <= i < j < self@.len() implies self@[i].0 != self@[
                j
            ].0 by {
                seq_filter_preserves_unique(pre, pred);
            }
        }
    }
}

/// Filtering an association list with unique keys keeps the keys unique,
/// and every element kept is an element of the original list.
proof fn seq_filter_preserves_unique<T>(s: Seq<(u64, T)>, pred: spec_fn((u64, T)) -> bool)
    requires
        unique_ids(s),
    ensures
        unique_ids(s.filter(pred)),
        forall|i: int| 0 <= i < s.filter(pred).len() ==> s.contains(#[trigger] s.filter(pred)[i]),
    decreases s.len(),
{
    reveal(Seq::filter);
    if s.len() > 0 {
        let last = s.last();
        let rest = s.drop_last();
        assert(unique_ids(rest)) by {
            assert forall|i: int, j: int| 0 <= i < j < rest.len() implies rest[i].0 != rest[
                j
            ].0 by {
                assert(s[i].0 != s[j].0);
            }
        }
        seq_filter_preserves_unique(rest, pred);
        let f = rest.filter(pred);
        assert forall|i: int| 0 <= i < f.len() implies s.contains(f[i]) by {
            assert(rest.contains(f[i]));
            let w = choose|w: int| 0 <= w < rest.len() && rest[w] == f[i];
            assert(s[w] == f[i]);
        }
        if pred(last) {
            assert(s.filter(pred) == f.push(last));
            assert(s.contains(last)) by {
                assert(s[s.len() - 1] == last);
            }
            assert forall|i: int, j: int|
                0 <= i < j < f.push(last).len() implies f.push(last)[i].0 != f.push(last)[
                j
            ].0 by {
                if j < f.len() {
                    assert(f[i].0 != f[j].0);
                } else {
                    assert(rest.contains(f[i]));
                    let w = choose|w: int| 0 <= w < rest.len() && rest[w] == f[i];
                    assert(s[w].0 != s[s.len() - 1].0);
                }
            }
        }
    }
}

} // verus!
