//! A slot arena: records behind stable integer handles, with a LIFO free list.
use crate::mesh::ids::ID;
use vstd::prelude::*;

verus! {

/// The mathematical state of an arena: every slot ever allocated, in index
/// order, and the freed slot indices in the order they were freed.
pub struct ArenaModel<V> {
    pub slots: Seq<V>,
    pub free: Seq<int>,
}

/// One call on an arena: an insertion of a value or a removal of a slot.
pub enum ArenaOp<V> {
    Insert(V),
    Remove(int),
}

impl<V> ArenaModel<V> {
    /// The arena with no slot.
    pub open spec fn empty() -> Self {
        ArenaModel { slots: Seq::empty(), free: Seq::empty() }
    }

    /// Slot indices fit in a handle; freed indices are distinct allocated slots.
    pub open spec fn wf(self) -> bool {
        &&& self.slots.len() <= u32::MAX + 1
        &&& self.free.no_duplicates()
        &&& forall|j: int| 0 <= j < self.free.len() ==> 0 <= #[trigger] self.free[j] < self.slots.len()
    }

    /// Slot `i` holds a record that has not been removed.
    pub open spec fn is_live(self, i: int) -> bool {
        0 <= i < self.slots.len() && !self.free.contains(i)
    }

    /// Number of live records.
    pub open spec fn len(self) -> int {
        self.slots.len() - self.free.len()
    }

    /// `n` insertions in a row can each be given a handle.
    pub open spec fn room_for(self, n: int) -> bool {
        self.free.len() as int + (u32::MAX as int + 1 - self.slots.len() as int) >= n
    }

    /// An insertion can be given a handle: a freed slot exists, or a new
    /// index still fits in 32 bits.
    pub open spec fn has_room(self) -> bool {
        self.free.len() > 0 || self.slots.len() <= u32::MAX
    }

    /// The slot the next insertion takes: the most recently freed one, else a
    /// fresh slot at the end.
    pub open spec fn next_index(self) -> int {
        if self.free.len() > 0 {
            self.free.last()
        } else {
            self.slots.len() as int
        }
    }

    /// The arena after inserting `v` (unchanged when there is no room).
    pub open spec fn insert(self, v: V) -> Self {
        if !self.has_room() {
            self
        } else if self.free.len() > 0 {
            ArenaModel { slots: self.slots.update(self.free.last(), v), free: self.free.drop_last() }
        } else {
            ArenaModel { slots: self.slots.push(v), free: self.free }
        }
    }

    /// The arena after removing slot `i`; removing a slot that is not live
    /// changes nothing.
    pub open spec fn remove(self, i: int) -> Self {
        if self.is_live(i) {
            ArenaModel { slots: self.slots, free: self.free.push(i) }
        } else {
            self
        }
    }

    /// The live slot indices below `n`, ascending.
    pub open spec fn live_below(self, n: nat) -> Seq<int>
        decreases n,
    {
        if n == 0 {
            Seq::empty()
        } else {
            let s = self.live_below((n - 1) as nat);
            if self.is_live(n - 1) {
                s.push(n - 1)
            } else {
                s
            }
        }
    }

    /// All live slot indices, ascending.
    pub open spec fn live_indices(self) -> Seq<int> {
        self.live_below(self.slots.len())
    }

    /// The arena after a sequence of calls, applied in order.
    pub open spec fn apply(self, ops: Seq<ArenaOp<V>>) -> Self
        decreases ops.len(),
    {
        if ops.len() == 0 {
            self
        } else {
            let a = self.apply(ops.drop_last());
            match ops.last() {
                ArenaOp::Insert(v) => a.insert(v),
                ArenaOp::Remove(i) => a.remove(i),
            }
        }
    }

    /// Every insertion of `ops` finds room and every removal names a live slot.
    pub open spec fn effective(self, ops: Seq<ArenaOp<V>>) -> bool
        decreases ops.len(),
    {
        if ops.len() == 0 {
            true
        } else {
            let a = self.apply(ops.drop_last());
            &&& self.effective(ops.drop_last())
            &&& match ops.last() {
                ArenaOp::Insert(v) => a.has_room(),
                ArenaOp::Remove(i) => a.is_live(i),
            }
        }
    }
}

/// Number of insertions in `ops`.
pub open spec fn count_inserts<V>(ops: Seq<ArenaOp<V>>) -> int
    decreases ops.len(),
{
    if ops.len() == 0 {
        0
    } else {
        count_inserts(ops.drop_last()) + if ops.last() is Insert {
            1int
        } else {
            0int
        }
    }
}

/// Number of removals in `ops`.
pub open spec fn count_removes<V>(ops: Seq<ArenaOp<V>>) -> int
    decreases ops.len(),
{
    if ops.len() == 0 {
        0
    } else {
        count_removes(ops.drop_last()) + if ops.last() is Remove {
            1int
        } else {
            0int
        }
    }
}

/// Insertion and removal keep the arena well formed.
pub proof fn lemma_ops_preserve_wf<V>(a: ArenaModel<V>, v: V, i: int)
    requires
        a.wf(),
    ensures
        a.insert(v).wf(),
        a.remove(i).wf(),
        a.has_room() ==> a.insert(v).is_live(a.next_index()),
        a.has_room() ==> !a.is_live(a.next_index()),
        a.has_room() ==> forall|j: int| j != a.next_index() ==> a.insert(v).is_live(j) == a.is_live(j),
        forall|j: int| j != i ==> a.remove(i).is_live(j) == a.is_live(j),
        !a.remove(i).is_live(i),
{
    if a.has_room() && a.free.len() > 0 {
        let f = a.free;
        let d = f.drop_last();
        assert forall|j: int| 0 <= j < d.len() implies d[j] != f.last() by {
            assert(f[j] == d[j]);
        }
        assert(f.contains(f.last()));
        assert forall|j: int| j != a.next_index() implies a.insert(v).is_live(j) == a.is_live(j) by {
            if f.contains(j) {
                let k = choose|k: int| 0 <= k < f.len() && f[k] == j;
                assert(d[k] == j);
            }
        }
    }
    if a.is_live(i) {
        let p = a.free.push(i);
        assert forall|j: int, k: int| 0 <= j < p.len() && 0 <= k < p.len() && j != k implies p[j]
            != p[k] by {
            if j == p.len() - 1 {
                assert(a.free[k] == p[k]);
            } else if k == p.len() - 1 {
                assert(a.free[j] == p[j]);
            }
        }
        assert(p[p.len() - 1] == i);
        assert forall|j: int| j != i implies a.remove(i).is_live(j) == a.is_live(j) by {
            if a.free.contains(j) {
                let k = choose|k: int| 0 <= k < a.free.len() && a.free[k] == j;
                assert(p[k] == j);
            }
        }
    }
}

/// The live indices below `n` are distinct, ascending, live and complete.
pub proof fn lemma_live_below<V>(a: ArenaModel<V>, n: nat)
    ensures
        forall|j: int, k: int|
            0 <= j < k < a.live_below(n).len() ==> a.live_below(n)[j] < a.live_below(n)[k],
        forall|j: int| 0 <= j < a.live_below(n).len() ==> a.is_live(#[trigger] a.live_below(n)[j]),
        forall|j: int| 0 <= j < a.live_below(n).len() ==> #[trigger] a.live_below(n)[j] < n,
        forall|i: int| 0 <= i < n && a.is_live(i) ==> a.live_below(n).contains(i),
    decreases n,
{
    if n > 0 {
        lemma_live_below(a, (n - 1) as nat);
        let s = a.live_below((n - 1) as nat);
        if a.is_live(n - 1) {
            assert forall|i: int| 0 <= i < n && a.is_live(i) implies a.live_below(n).contains(i) by {
                if i < n - 1 {
                    let j = choose|j: int| 0 <= j < s.len() && s[j] == i;
                    assert(a.live_below(n)[j] == i);
                } else {
                    assert(a.live_below(n)[s.len() as int] == i);
                }
            }
        }
    }
}

/// The live indices of a well-formed arena number exactly `len()`.
pub proof fn lemma_live_count<V>(a: ArenaModel<V>)
    requires
        a.wf(),
    ensures
        a.live_indices().len() == a.len(),
{
    let n = a.slots.len();
    let s = a.live_indices();
    lemma_live_below(a, n);
    let live = Set::new(|i: int| a.is_live(i));
    let fr = a.free.to_set();
    let all = Set::new(|i: int| 0 <= i < n);
    assert(s.no_duplicates()) by {
        assert forall|j: int, k: int| 0 <= j < s.len() && 0 <= k < s.len() && j != k implies s[j]
            != s[k] by {
            if j < k {
                assert(s[j] < s[k]);
            } else {
                assert(s[k] < s[j]);
            }
        }
    }
    assert(s.to_set() =~= live) by {
        assert forall|i: int| live.contains(i) implies s.to_set().contains(i) by {
            assert(s.contains(i));
        }
    }
    s.unique_seq_to_set();
    a.free.unique_seq_to_set();
    assert(all =~= vstd::set_lib::set_int_range(0, n as int));
    vstd::set_lib::lemma_int_range(0, n as int);
    assert(live.disjoint(fr));
    assert(live + fr =~= all) by {
        assert forall|i: int| fr.contains(i) implies all.contains(i) by {
            let j = choose|j: int| 0 <= j < a.free.len() && a.free[j] == i;
        }
    }
    vstd::set_lib::lemma_set_disjoint_lens(live, fr);
}

/// An insertion uses one unit of room.
pub proof fn lemma_room_after_insert<V>(a: ArenaModel<V>, v: V, n: int)
    requires
        a.wf(),
        a.room_for(n),
        n >= 1,
    ensures
        a.has_room(),
        a.insert(v).room_for(n - 1),
{
    if a.free.len() > 0 {
        assert(a.insert(v).free =~= a.free.drop_last());
        assert(a.insert(v).slots.len() == a.slots.len());
        assert(a.insert(v).free.len() == a.free.len() - 1);
    } else {
        assert(a.insert(v).slots.len() == a.slots.len() + 1);
    }
}

/// Overwriting the slot an insertion just filled is the same as inserting
/// the new value in the first place.
pub proof fn lemma_insert_then_set<V>(a: ArenaModel<V>, v: V, w: V)
    requires
        a.wf(),
        a.has_room(),
    ensures
        (ArenaModel { slots: a.insert(v).slots.update(a.next_index(), w), free: a.insert(v).free }) == a.insert(w),
{
    let b = ArenaModel { slots: a.insert(v).slots.update(a.next_index(), w), free: a.insert(v).free };
    if a.free.len() > 0 {
        assert(b.slots =~= a.slots.update(a.free.last(), w));
    } else {
        assert(b.slots =~= a.slots.push(w));
    }
    assert(b.slots =~= a.insert(w).slots);
    assert(b.free =~= a.insert(w).free);
}

/// Overwriting an allocated slot other than the one an insertion takes
/// commutes with the insertion.
pub proof fn lemma_set_commutes_insert<V>(a: ArenaModel<V>, v: V, i: int, w: V)
    requires
        a.wf(),
        a.has_room(),
        0 <= i < a.slots.len(),
        i != a.next_index(),
    ensures
        (ArenaModel { slots: a.insert(v).slots.update(i, w), free: a.insert(v).free }) == (ArenaModel {
            slots: a.slots.update(i, w),
            free: a.free,
        }).insert(v),
{
    let b = ArenaModel { slots: a.insert(v).slots.update(i, w), free: a.insert(v).free };
    let c = (ArenaModel { slots: a.slots.update(i, w), free: a.free }).insert(v);
    if a.free.len() > 0 {
        assert(b.slots =~= a.slots.update(a.free.last(), v).update(i, w));
        assert(c.slots =~= a.slots.update(i, w).update(a.free.last(), v));
    } else {
        assert(b.slots =~= a.slots.push(v).update(i, w));
        assert(c.slots =~= a.slots.update(i, w).push(v));
    }
    assert(b.slots =~= c.slots);
    assert(b.free =~= c.free);
}

/// Counting law: after any sequence of insertions that find room and
/// removals of live slots, the number of live records is the number of
/// insertions minus the number of removals.
pub proof fn lemma_len_counts_ops<V>(ops: Seq<ArenaOp<V>>)
    requires
        ArenaModel::<V>::empty().effective(ops),
    ensures
        ArenaModel::<V>::empty().apply(ops).len() == count_inserts(ops) - count_removes(ops),
        ArenaModel::<V>::empty().apply(ops).wf(),
    decreases ops.len(),
{
    let e = ArenaModel::<V>::empty();
    if ops.len() > 0 {
        lemma_len_counts_ops(ops.drop_last());
        let a = e.apply(ops.drop_last());
        match ops.last() {
            ArenaOp::Insert(v) => {
                lemma_ops_preserve_wf(a, v, 0);
            },
            ArenaOp::Remove(i) => {
                lemma_ops_preserve_wf(a, arbitrary(), i);
            },
        }
    }
}

/// Reuse law: right after slot `i` is removed, the next insertion takes slot
/// `i` again, and the slot then holds the newly inserted value.
pub proof fn lemma_reuse_after_remove<V>(a: ArenaModel<V>, i: int, v: V)
    requires
        a.wf(),
        a.is_live(i),
    ensures
        a.remove(i).has_room(),
        a.remove(i).next_index() == i,
        a.remove(i).insert(v).slots[i] == v,
        a.remove(i).insert(v).is_live(i),
{
    lemma_ops_preserve_wf(a, v, i);
    lemma_ops_preserve_wf(a.remove(i), v, i);
}

/// Liveness law: once slot `i` is removed, the live indices leave it out and
/// still number exactly `len()`.
pub proof fn lemma_removed_not_listed<V>(a: ArenaModel<V>, i: int)
    requires
        a.wf(),
    ensures
        !a.remove(i).live_indices().contains(i),
        a.remove(i).live_indices().len() == a.remove(i).len(),
{
    let b = a.remove(i);
    lemma_ops_preserve_wf(a, arbitrary(), i);
    lemma_live_below(b, b.slots.len());
    lemma_live_count(b);
    if b.live_indices().contains(i) {
        let j = choose|j: int| 0 <= j < b.live_indices().len() && b.live_indices()[j] == i;
        assert(b.is_live(i));
        if a.is_live(i) {
            assert(b.free[b.free.len() - 1] == i);
        }
    }
}

/// A slot arena. Each record sits at a fixed index; a removed slot goes on a
/// free list and the next insertion reuses the most recently freed slot.
/// A removed slot keeps its data, readable until it is reused.
#[derive(Clone, Debug)]
pub struct IDMap<K, V> {
    values: Vec<V>,
    free: Vec<K>,
    vacant: Vec<bool>,
}

impl<K: ID, V> View for IDMap<K, V> {
    type V = ArenaModel<V>;

    closed spec fn view(&self) -> ArenaModel<V> {
        ArenaModel { slots: self.values@, free: self.free@.map_values(|k: K| k.idx() as int) }
    }
}

impl<K: ID, V> IDMap<K, V> {
    /// The free list and the vacancy flags agree with the model, which is
    /// well formed.
    pub closed spec fn wf(&self) -> bool {
        &&& self@.wf()
        &&& self.vacant@.len() == self.values@.len()
        &&& forall|i: int| 0 <= i < self.vacant@.len() ==> #[trigger] self.vacant@[i] == self@.free.contains(i)
    }

    /// A well-formed arena has a well-formed model.
    pub proof fn lemma_wf(&self)
        requires
            self.wf(),
        ensures
            self@.wf(),
    {
    }

    /// An empty arena.
    pub fn with_capacity(capacity: usize) -> (r: Self)
        ensures
            r.wf(),
            r@ == ArenaModel::<V>::empty(),
    {
        let r = IDMap { values: Vec::with_capacity(capacity), free: Vec::new(), vacant: Vec::new() };
        assert(r@.free =~= Seq::<int>::empty());
        r
    }

    /// Stores `value` in the most recently freed slot, or in a new slot at the
    /// end, and returns its handle; `None`, with nothing changed, when no slot
    /// is free and a new index would not fit in 32 bits.
    pub fn insert_new(&mut self, value: V) -> (r: Option<K>)
        requires
            old(self).wf(),
        ensures
            final(self).wf(),
            final(self)@ == old(self)@.insert(value),
            r.is_some() == old(self)@.has_room(),
            r.is_some() ==> r.unwrap().idx() == old(self)@.next_index(),
    {
        proof {
            lemma_ops_preserve_wf(self@, value, 0);
        }
        let ghost old_model = self@;
        match self.free.pop() {
            Some(i) => {
                let ix = i.deref() as usize;
                proof {
                    assert(old_model.free.last() == ix as int);
                    assert(old_model.free.contains(ix as int));
                }
                self.values.set(ix, value);
                self.vacant.set(ix, false);
                proof {
                    assert(self@.free =~= old_model.free.drop_last());
                    assert(self@.slots =~= old_model.slots.update(ix as int, value));
                    assert forall|j: int| 0 <= j < self.vacant@.len() implies #[trigger] self.vacant@[j]
                        == self@.free.contains(j) by {
                        if j != ix && old_model.free.contains(j) {
                            let k = choose|k: int| 0 <= k < old_model.free.len() && old_model.free[k] == j;
                            assert(self@.free[k] == j);
                        }
                    }
                }
                Some(i)
            },
            None => {
                if self.values.len() > u32::MAX as usize {
                    proof {
                        assert(self@.free =~= old_model.free);
                    }
                    return None;
                }
                let ix = self.values.len() as u32;
                self.values.push(value);
                self.vacant.push(false);
                proof {
                    assert(self@.free =~= old_model.free);
                    assert(self@.slots =~= old_model.slots.push(value));
                    assert(!old_model.free.contains(ix as int));
                }
                Some(K::new(ix))
            },
        }
    }

    /// Whether `id` names a live slot.
    pub fn contains(&self, id: K) -> (r: bool)
        requires
            self.wf(),
        ensures
            r == self@.is_live(id.idx() as int),
    {
        let ix = id.deref() as usize;
        ix < self.vacant.len() && !self.vacant[ix]
    }

    /// Frees the slot of `id` for reuse; a slot that is not live is left as it is.
    pub fn remove(&mut self, id: K)
        requires
            old(self).wf(),
        ensures
            final(self).wf(),
            final(self)@ == old(self)@.remove(id.idx() as int),
    {
        proof {
            lemma_ops_preserve_wf(self@, arbitrary(), id.idx() as int);
        }
        let ghost old_model = self@;
        if self.contains(id) {
            let ix = id.deref() as usize;
            self.free.push(id);
            self.vacant.set(ix, true);
            proof {
                assert(self@.free =~= old_model.free.push(ix as int));
                assert(self@.slots =~= old_model.slots);
                assert forall|j: int| 0 <= j < self.vacant@.len() implies #[trigger] self.vacant@[j]
                    == self@.free.contains(j) by {
                    if j != ix && old_model.free.contains(j) {
                        let k = choose|k: int| 0 <= k < old_model.free.len() && old_model.free[k] == j;
                        assert(self@.free[k] == j);
                    }
                    if j == ix {
                        assert(self@.free.last() == j);
                    }
                }
            }
        }
    }

    /// Number of live records.
    pub fn len(&self) -> (r: usize)
        requires
            self.wf(),
        ensures
            r == self@.len(),
    {
        proof {
            lemma_live_count(self@);
        }
        self.values.len() - self.free.len()
    }

    /// The record in the slot of `id`, live or freed; `None` when the index is
    /// past the last slot.
    pub fn get(&self, id: K) -> (r: Option<&V>)
        ensures
            r.is_some() == (id.idx() < self@.slots.len()),
            r.is_some() ==> *r.unwrap() == self@.slots[id.idx() as int],
    {
        let ix = id.deref() as usize;
        if ix < self.values.len() {
            Some(&self.values[ix])
        } else {
            None
        }
    }

    /// Mutable access to the record in the slot of `id`, live or freed; `None`
    /// when the index is past the last slot.
    pub fn get_mut(&mut self, id: K) -> (r: Option<&mut V>)
        requires
            old(self).wf(),
        ensures
            r.is_some() == (id.idx() < old(self)@.slots.len()),
            r.is_some() ==> *r.unwrap() == old(self)@.slots[id.idx() as int],
            r.is_some() ==> final(self)@ == (ArenaModel {
                slots: old(self)@.slots.update(id.idx() as int, *final(r.unwrap())),
                free: old(self)@.free,
            }),
            r.is_none() ==> final(self)@ == old(self)@,
            final(self).wf(),
    {
        let ix = id.deref() as usize;
        if ix < self.values.len() {
            Some(&mut self.values[ix])
        } else {
            None
        }
    }

    /// The handles of all live slots, in ascending index order.
    pub fn iter(&self) -> (r: Vec<K>)
        requires
            self.wf(),
        ensures
            r@.map_values(|k: K| k.idx() as int) == self@.live_indices(),
            r@.len() == self@.len(),
    {
        let mut r: Vec<K> = Vec::new();
        let n = self.vacant.len();
        let mut i: usize = 0;
        while i < n
            invariant
                self.wf(),
                n == self.vacant@.len(),
                n == self@.slots.len(),
                n <= u32::MAX + 1,
                i <= n,
                r@.map_values(|k: K| k.idx() as int) == self@.live_below(i as nat),
            decreases n - i,
        {
            let ghost prev = r@;
            if !self.vacant[i] {
                r.push(K::new(i as u32));
                assert(r@.map_values(|k: K| k.idx() as int) =~= prev.map_values(
                    |k: K| k.idx() as int,
                ).push(i as int));
            }
            i = i + 1;
        }
        proof {
            lemma_live_count(self@);
        }
        r
    }
}

} // verus!
