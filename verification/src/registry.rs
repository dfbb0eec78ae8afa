//! The table of rows: which live bar is drawn on which line below the anchor.

use vstd::prelude::*;

verus! {

/// One live bar's entry: its identity and the row it occupies.
#[derive(Clone, Copy, Debug)]
pub struct Slot {
    pub id: u64,
    pub row: u16,
}

/// Rows of the live bars, keyed by identity.
///
/// Viewed as a map from identity to row. A well-formed registry assigns the
/// rows `0 .. live()` with no gap and no row twice, and has never handed out
/// an identity at or above `next_id()`.
pub struct Registry {
    slots: Vec<Slot>,
    next_id: u64,
}

/// Some entry of `s` belongs to `id`.
pub open spec fn listed(s: Seq<Slot>, id: u64) -> bool {
    exists|i: int| 0 <= i < s.len() && (#[trigger] s[i]).id == id
}

/// The position in `s` of an entry that belongs to `id`.
pub open spec fn index_of(s: Seq<Slot>, id: u64) -> int {
    choose|i: int| 0 <= i < s.len() && (#[trigger] s[i]).id == id
}

/// The entries of `s` read as a map from identity to row.
pub open spec fn table(s: Seq<Slot>) -> Map<u64, u16> {
    Map::new(|id: u64| listed(s, id), |id: u64| s[index_of(s, id)].row)
}

/// No identity occurs twice in `s`.
pub open spec fn distinct_ids(s: Seq<Slot>) -> bool {
    forall|i: int, j: int|
        0 <= i < s.len() && 0 <= j < s.len() && i != j ==> (#[trigger] s[i]).id != (
        #[trigger] s[j]).id
}

/// The rows of `m` are exactly `0 .. live`, each held by one identity.
pub open spec fn dense(m: Map<u64, u16>, live: nat) -> bool {
    &&& forall|id: u64| #[trigger] m.dom().contains(id) ==> (m[id] as nat) < live
    &&& forall|a: u64, b: u64|
        #[trigger] m.dom().contains(a) && #[trigger] m.dom().contains(b) && a != b ==> m[a]
            != m[b]
    &&& forall|r: int| 0 <= r < live ==> #[trigger] assigned(m, r)
}

/// Some bar of `m` is on row `r`.
pub open spec fn assigned(m: Map<u64, u16>, r: int) -> bool {
    exists|id: u64| #[trigger] m.dom().contains(id) && m[id] == r
}

/// Some entry of `s` is on row `r`.
pub open spec fn row_used(s: Seq<Slot>, r: int) -> bool {
    exists|i: int| 0 <= i < s.len() && (#[trigger] s[i]).row == r
}

/// The map after `id` has taken the row just below the last one of `live` bars.
pub open spec fn allocated(m: Map<u64, u16>, live: nat, id: u64) -> Map<u64, u16> {
    m.insert(id, live as u16)
}

/// The map after the bar `id` has left: every row below its row moves up by one.
pub open spec fn released(m: Map<u64, u16>, id: u64) -> Map<u64, u16> {
    Map::new(
        |k: u64| m.dom().contains(k) && k != id,
        |k: u64|
            if m[k] > m[id] {
                (m[k] - 1) as u16
            } else {
                m[k]
            },
    )
}

/// Every entry of a sequence with distinct identities is found under its identity.
pub proof fn lemma_table_entry(s: Seq<Slot>, i: int)
    requires
        distinct_ids(s),
        0 <= i < s.len(),
    ensures
        listed(s, s[i].id),
        table(s).dom().contains(s[i].id),
        table(s)[s[i].id] == s[i].row,
        index_of(s, s[i].id) == i,
{
    let id = s[i].id;
    assert(0 <= i < s.len() && s[i].id == id);
    let j = index_of(s, id);
    assert(0 <= j < s.len() && s[j].id == id);
}

impl View for Registry {
    type V = Map<u64, u16>;

    closed spec fn view(&self) -> Map<u64, u16> {
        table(self.slots@)
    }
}

impl Registry {
    /// The number of live bars.
    pub closed spec fn live(&self) -> nat {
        self.slots@.len()
    }

    /// The identity that the next bar will get.
    pub closed spec fn next_id(&self) -> u64 {
        self.next_id
    }

    /// The representation is consistent and the rows are dense.
    pub closed spec fn wf(&self) -> bool {
        &&& distinct_ids(self.slots@)
        &&& forall|i: int| 0 <= i < self.slots@.len() ==> (#[trigger] self.slots@[i]).id < self.next_id
        &&& forall|i: int|
            0 <= i < self.slots@.len() ==> ((#[trigger] self.slots@[i]).row as int)
                < self.slots@.len()
        &&& forall|i: int, j: int|
            0 <= i < self.slots@.len() && 0 <= j < self.slots@.len() && i != j ==> (
            #[trigger] self.slots@[i]).row != (#[trigger] self.slots@[j]).row
        &&& forall|r: int| 0 <= r < self.slots@.len() ==> #[trigger] row_used(self.slots@, r)
    }

    /// What well-formedness means for the view: the rows of the live bars are
    /// a permutation of `0 .. live()`, and every identity in use is below
    /// `next_id()`.
    pub proof fn lemma_wf_view(&self)
        requires
            self.wf(),
        ensures
            dense(self@, self.live()),
            forall|id: u64| #[trigger] self@.dom().contains(id) ==> id < self.next_id(),
            self.live() <= u16::MAX + 1,
    {
        let s = self.slots@;
        assert forall|id: u64| #[trigger] self@.dom().contains(id) implies (self@[id] as nat)
            < self.live() && id < self.next_id() by {
            let i = index_of(s, id);
            assert(0 <= i < s.len() && s[i].id == id);
        }
        assert forall|a: u64, b: u64|
            #[trigger] self@.dom().contains(a) && #[trigger] self@.dom().contains(b) && a
                != b implies self@[a] != self@[b] by {
            let i = index_of(s, a);
            let j = index_of(s, b);
            assert(0 <= i < s.len() && s[i].id == a);
            assert(0 <= j < s.len() && s[j].id == b);
        }
        assert forall|r: int| 0 <= r < self.live() implies #[trigger] assigned(self@, r) by {
            assert(row_used(s, r));
            let i = choose|i: int| 0 <= i < s.len() && (#[trigger] s[i]).row == r;
            lemma_table_entry(s, i);
            assert(self@.dom().contains(s[i].id) && self@[s[i].id] == r);
        }
        if s.len() > 0 {
            assert(row_used(s, s.len() - 1));
            let i = choose|i: int| 0 <= i < s.len() && (#[trigger] s[i]).row == s.len() - 1;
            assert(s[i].row <= u16::MAX);
        }
    }

    /// An empty registry, whose first bar will get identity 0.
    pub fn new() -> (r: Registry)
        ensures
            r.wf(),
            r@ == Map::<u64, u16>::empty(),
            r.live() == 0,
            r.next_id() == 0,
    {
        let r = Registry { slots: Vec::new(), next_id: 0 };
        assert(r@ =~= Map::<u64, u16>::empty());
        r
    }

    /// The number of live bars.
    pub fn len(&self) -> (n: usize)
        ensures
            n == self.live(),
    {
        self.slots.len()
    }

    /// Whether one more bar can be entered: a row and an identity are left.
    pub fn has_room(&self) -> (b: bool)
        ensures
            b == (self.live() <= u16::MAX && self.next_id() < u64::MAX),
    {
        self.slots.len() <= 65535 && self.next_id < u64::MAX
    }

    /// The row of the bar `id`, or `None` once the bar has left.
    pub fn try_get_pos(&self, id: u64) -> (pos: Option<u16>)
        requires
            self.wf(),
        ensures
            pos == (if self@.dom().contains(id) {
                Some(self@[id])
            } else {
                None
            }),
    {
        let mut i: usize = 0;
        while i < self.slots.len()
            invariant
                i <= self.slots@.len(),
                distinct_ids(self.slots@),
                forall|k: int| 0 <= k < i ==> (#[trigger] self.slots@[k]).id != id,
            decreases self.slots@.len() - i,
        {
            if self.slots[i].id == id {
                proof {
                    lemma_table_entry(self.slots@, i as int);
                }
                return Some(self.slots[i].row);
            }
            i += 1;
        }
        None
    }

    /// Enters a new bar on the row after the last one and returns its identity.
    ///
    /// The row is one more than the largest row in use, or 0 when no bar is
    /// live; with dense rows that is `live()`.
    pub fn next_free_pos(&mut self) -> (id: u64)
        requires
            old(self).wf(),
            old(self).live() <= u16::MAX,
            old(self).next_id() < u64::MAX,
        ensures
            final(self).wf(),
            id == old(self).next_id(),
            final(self).next_id() == id + 1,
            !old(self)@.dom().contains(id),
            final(self)@ == allocated(old(self)@, old(self).live(), id),
            final(self).live() == old(self).live() + 1,
    {
        let next_id = self.next_id;
        let mut top: Option<u16> = None;
        let mut i: usize = 0;
        while i < self.slots.len()
            invariant
                i <= self.slots@.len(),
                top is None <==> i == 0,
                top matches Some(t) ==> {
                    &&& forall|k: int| 0 <= k < i ==> (#[trigger] self.slots@[k]).row <= t
                    &&& exists|k: int| 0 <= k < i && (#[trigger] self.slots@[k]).row == t
                },
            decreases self.slots@.len() - i,
        {
            let row = self.slots[i].row;
            top = match top {
                Some(t) if t >= row => Some(t),
                _ => Some(row),
            };
            i += 1;
        }
        let ghost before = self.slots@;
        let next_pos: u16 = match top {
            Some(t) => {
                proof {
                    let k = choose|k: int| 0 <= k < before.len() && (#[trigger] before[k]).row == t;
                    assert(before[k].row < before.len());
                    assert(row_used(before, before.len() - 1));
                    let w = choose|w: int|
                        0 <= w < before.len() && (#[trigger] before[w]).row == before.len() - 1;
                    assert(before[w].row <= t);
                }
                t + 1
            },
            None => 0,
        };
        assert(next_pos == before.len());
        proof {
            self.lemma_wf_view();
        }
        self.slots.push(Slot { id: next_id, row: next_pos });
        self.next_id = next_id + 1;
        proof {
            let after = self.slots@;
            assert(after == before.push(Slot { id: next_id, row: next_pos }));
            assert(distinct_ids(after));
            assert forall|r: int| 0 <= r < after.len() implies #[trigger] row_used(after, r) by {
                if r < before.len() {
                    assert(row_used(before, r));
                    let k = choose|k: int| 0 <= k < before.len() && (#[trigger] before[k]).row == r;
                    assert(after[k].row == r);
                } else {
                    assert(after[before.len() as int].row == r);
                }
            }
            assert(!listed(before, next_id));
            assert forall|k: u64| table(after).dom().contains(k) <==> allocated(
                table(before),
                before.len(),
                next_id,
            ).dom().contains(k) by {
                if listed(after, k) {
                    let j = index_of(after, k);
                    if j < before.len() {
                        assert(before[j].id == k);
                    }
                }
                if listed(before, k) {
                    let j = index_of(before, k);
                    assert(after[j].id == k);
                }
                if k == next_id {
                    assert(after[before.len() as int].id == k);
                }
            }
            assert forall|k: u64| table(after).dom().contains(k) implies table(after)[k]
                == allocated(table(before), before.len(), next_id)[k] by {
                let j = index_of(after, k);
                lemma_table_entry(after, j);
                if j < before.len() {
                    assert(before[j] == after[j]);
                    lemma_table_entry(before, j);
                }
            }
            assert(table(after) =~= allocated(table(before), before.len(), next_id));
        }
        next_id
    }

    /// Removes the bar `id` and moves every bar below it up by one row.
    pub fn reposition(&mut self, id: u64)
        requires
            old(self).wf(),
            old(self)@.dom().contains(id),
        ensures
            final(self).wf(),
            final(self)@ == released(old(self)@, id),
            final(self).live() == old(self).live() - 1,
            final(self).next_id() == old(self).next_id(),
    {
        let ghost before = self.slots@;
        let n = self.slots.len();
        let mut j: usize = 0;
        while self.slots[j].id != id
            invariant
                self.slots@ == before,
                n == before.len(),
                listed(before, id),
                0 <= j < before.len(),
                forall|k: int| 0 <= k < j ==> (#[trigger] before[k]).id != id,
            decreases before.len() - j,
        {
            proof {
                let w = index_of(before, id);
                assert(w > j);
            }
            j += 1;
        }
        let closed_pos = self.slots[j].row;
        self.slots.remove(j);
        let ghost rest = self.slots@;
        assert(rest == before.remove(j as int));
        let mut i: usize = 0;
        while i < self.slots.len()
            invariant
                i <= rest.len(),
                self.slots@.len() == rest.len(),
                self.next_id == old(self).next_id,
                forall|k: int| 0 <= k < i ==> #[trigger] self.slots@[k] == shifted(rest[k], closed_pos),
                forall|k: int| i <= k < rest.len() ==> #[trigger] self.slots@[k] == rest[k],
            decreases rest.len() - i,
        {
            let slot = self.slots[i];
            if slot.row > closed_pos {
                self.slots.set(i, Slot { id: slot.id, row: slot.row - 1 });
            }
            i += 1;
        }
        proof {
            let after = self.slots@;
            lemma_released(before, j as int, after);
        }
    }
}

/// An entry after the row `p` has been given up.
pub open spec fn shifted(slot: Slot, p: u16) -> Slot {
    if slot.row > p {
        Slot { id: slot.id, row: (slot.row - 1) as u16 }
    } else {
        slot
    }
}

/// Dropping entry `j` and shifting the others keeps the rows dense and
/// yields the released map.
proof fn lemma_released(before: Seq<Slot>, j: int, after: Seq<Slot>)
    requires
        0 <= j < before.len(),
        distinct_ids(before),
        forall|i: int| 0 <= i < before.len() ==> ((#[trigger] before[i]).row as int) < before.len(),
        forall|a: int, b: int|
            0 <= a < before.len() && 0 <= b < before.len() && a != b ==> (#[trigger] before[a]).row
                != (#[trigger] before[b]).row,
        forall|r: int| 0 <= r < before.len() ==> #[trigger] row_used(before, r),
        after.len() == before.len() - 1,
        forall|k: int|
            0 <= k < after.len() ==> #[trigger] after[k] == shifted(
                before.remove(j)[k],
                before[j].row,
            ),
    ensures
        distinct_ids(after),
        forall|i: int| 0 <= i < after.len() ==> ((#[trigger] after[i]).row as int) < after.len(),
        forall|a: int, b: int|
            0 <= a < after.len() && 0 <= b < after.len() && a != b ==> (#[trigger] after[a]).row != (
            #[trigger] after[b]).row,
        forall|r: int| 0 <= r < after.len() ==> #[trigger] row_used(after, r),
        forall|i: int| 0 <= i < after.len() ==> exists|k: int|
            0 <= k < before.len() && before[k].id == (#[trigger] after[i]).id,
        table(after) == released(table(before), before[j].id),
{
    let p = before[j].row;
    let id = before[j].id;
    let rest = before.remove(j);
    // where entry k of the rest came from
    let src = |k: int| if k < j { k } else { k + 1 };
    assert forall|k: int| 0 <= k < after.len() implies {
        &&& 0 <= src(k) < before.len()
        &&& src(k) != j
        &&& rest[k] == before[src(k)]
        &&& (#[trigger] after[k]).id == before[src(k)].id
        &&& before[src(k)].row != p
        &&& after[k].row == (if before[src(k)].row > p {
            (before[src(k)].row - 1) as u16
        } else {
            before[src(k)].row
        })
    } by {
        assert(after[k] == shifted(rest[k], p));
    }
    assert forall|a: int, b: int|
        0 <= a < after.len() && 0 <= b < after.len() && a != b implies (#[trigger] after[a]).id != (
        #[trigger] after[b]).id && after[a].row != after[b].row by {
        assert(src(a) != src(b));
        assert(before[src(a)].id != before[src(b)].id);
        assert(before[src(a)].row != before[src(b)].row);
    }
    assert forall|i: int| 0 <= i < after.len() implies ((#[trigger] after[i]).row as int)
        < after.len() by {
        assert(before[src(i)].row < before.len());
    }
    assert forall|r: int| 0 <= r < after.len() implies #[trigger] row_used(after, r) by {
        let want = if r < p { r } else { r + 1 };
        assert(row_used(before, want));
        let k = choose|k: int| 0 <= k < before.len() && (#[trigger] before[k]).row == want;
        assert(k != j);
        let i = if k < j { k } else { k - 1 };
        assert(src(i) == k);
        assert(after[i].row == r);
    }
    assert forall|i: int| 0 <= i < after.len() implies exists|k: int|
        0 <= k < before.len() && before[k].id == (#[trigger] after[i]).id by {
        assert(before[src(i)].id == after[i].id);
    }
    lemma_table_entry(before, j);
    let want = released(table(before), id);
    assert forall|k: u64| table(after).dom().contains(k) <==> want.dom().contains(k) by {
        if listed(after, k) {
            let i = index_of(after, k);
            assert(after[i].id == k);
            assert(before[src(i)].id == k);
            lemma_table_entry(before, src(i));
        }
        if listed(before, k) && k != id {
            let b = index_of(before, k);
            assert(before[b].id == k);
            assert(b != j);
            let i = if b < j { b } else { b - 1 };
            assert(src(i) == b);
            assert(after[i].id == k);
        }
    }
    assert forall|k: u64| table(after).dom().contains(k) implies table(after)[k] == want[k] by {
        let i = index_of(after, k);
        assert(after[i].id == k);
        lemma_table_entry(after, i);
        lemma_table_entry(before, src(i));
    }
    assert(table(after) =~= want);
}

/// Row uniqueness and density survive creation: when the rows of `live`
/// bars are a permutation of `0 .. live` and a bar with a fresh identity is
/// entered, it gets row `live` and the rows are a permutation of
/// `0 .. live + 1`.
pub proof fn law_allocation_keeps_rows_dense(m: Map<u64, u16>, live: nat, id: u64)
    requires
        dense(m, live),
        !m.dom().contains(id),
        live <= u16::MAX,
    ensures
        allocated(m, live, id)[id] == live,
        forall|k: u64| #[trigger] m.dom().contains(k) ==> allocated(m, live, id)[k] == m[k],
        dense(allocated(m, live, id), live + 1),
{
    let a = allocated(m, live, id);
    assert forall|r: int| 0 <= r < live + 1 implies #[trigger] assigned(a, r) by {
        if r < live {
            assert(assigned(m, r));
            let k = choose|k: u64| #[trigger] m.dom().contains(k) && m[k] == r;
            assert(a.dom().contains(k) && a[k] == r);
        } else {
            assert(a.dom().contains(id) && a[id] == r);
        }
    }
    assert forall|k: u64| #[trigger] a.dom().contains(k) implies (a[k] as nat) < live + 1 by {
        if k != id {
            assert(m.dom().contains(k));
        }
    }
    assert forall|x: u64, y: u64|
        #[trigger] a.dom().contains(x) && #[trigger] a.dom().contains(y) && x != y implies a[x]
        != a[y] by {
        if x != id {
            assert(m.dom().contains(x));
        }
        if y != id {
            assert(m.dom().contains(y));
        }
    }
}

/// Compaction: when the rows of `live` bars are a permutation of `0 .. live`
/// and the bar on row `p` leaves, every bar that was below `p` moves up by
/// exactly one row, every bar above `p` stays, the bars keep their relative
/// order, and the rows are a permutation of `0 .. live - 1`.
pub proof fn law_release_compacts_rows(m: Map<u64, u16>, live: nat, id: u64)
    requires
        dense(m, live),
        m.dom().contains(id),
    ensures
        live >= 1,
        !released(m, id).dom().contains(id),
        forall|k: u64|
            #[trigger] m.dom().contains(k) && k != id ==> released(m, id).dom().contains(k),
        forall|k: u64|
            #[trigger] m.dom().contains(k) && m[k] > m[id] ==> released(m, id)[k] == m[k] - 1,
        forall|k: u64|
            #[trigger] m.dom().contains(k) && m[k] < m[id] ==> released(m, id)[k] == m[k],
        forall|a: u64, b: u64|
            #[trigger] m.dom().contains(a) && #[trigger] m.dom().contains(b) && a != id && b != id
                && m[a] < m[b] ==> released(m, id)[a] < released(m, id)[b],
        dense(released(m, id), (live - 1) as nat),
{
    let out = released(m, id);
    let p = m[id];
    assert forall|k: u64| #[trigger] out.dom().contains(k) implies (out[k] as nat) < live - 1 by {
        assert(m.dom().contains(k));
        assert(m[k] != p);
    }
    assert forall|x: u64, y: u64|
        #[trigger] out.dom().contains(x) && #[trigger] out.dom().contains(y) && x
            != y implies out[x] != out[y] by {
        assert(m.dom().contains(x) && m.dom().contains(y));
        assert(m[x] != p && m[y] != p);
    }
    assert forall|r: int| 0 <= r < live - 1 implies #[trigger] assigned(out, r) by {
        let want = if r < p { r } else { r + 1 };
        assert(assigned(m, want));
        let k = choose|k: u64| #[trigger] m.dom().contains(k) && m[k] == want;
        assert(out.dom().contains(k) && out[k] == r);
    }
    assert forall|a: u64, b: u64|
        #[trigger] m.dom().contains(a) && #[trigger] m.dom().contains(b) && a != id && b != id
            && m[a] < m[b] implies out[a] < out[b] by {
        assert(m[a] != p && m[b] != p);
    }
}

} // verus!
