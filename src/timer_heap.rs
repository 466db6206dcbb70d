use vstd::prelude::*;

verus! {

/// Position of the parent of heap slot `j` (for `j >= 1`).
pub open spec fn parent(j: int) -> int {
    (j - 1) / 2
}

/// `t` is the earliest deadline in `m`.
pub open spec fn earliest(m: Map<usize, u64>, t: u64) -> bool {
    &&& exists|id: usize| m.contains_key(id) && m[id] == t
    &&& forall|id: usize| m.contains_key(id) ==> t <= #[trigger] m[id]
}

/// The child of slot `k` that sifting down follows: the one with the
/// earlier deadline, the left one on a tie.
pub open spec fn earlier_child(nodes: Seq<TimedActionNode>, data: Seq<usize>, k: int) -> int {
    let l = 2 * k + 1;
    let r = 2 * k + 2;
    if r < data.len() && nodes[data[r] as int].time < nodes[data[l] as int].time {
        r
    } else {
        l
    }
}

/// The slots after sifting the action in slot `k` down, and where it ends:
/// it changes places with the earlier child while that child is strictly
/// earlier than it.
pub open spec fn sift_down_spec(nodes: Seq<TimedActionNode>, data: Seq<usize>, k: int) -> (Seq<usize>, int)
    decreases data.len() - k,
{
    if 0 <= k && 2 * k + 1 < data.len() {
        let c = earlier_child(nodes, data, k);
        if nodes[data[c] as int].time < nodes[data[k] as int].time {
            sift_down_spec(nodes, data.update(k, data[c]).update(c, data[k]), c)
        } else {
            (data, k)
        }
    } else {
        (data, k)
    }
}

/// The per-action record the heap maintains: the action's deadline and, while
/// the action is scheduled, its slot in the heap.
#[derive(Clone, Copy)]
pub struct TimedActionNode {
    pub time: u64,
    pub index: usize,
}

impl TimedActionNode {
    pub fn new() -> (r: TimedActionNode)
        ensures
            r.time == 0,
            r.index == 0,
    {
        TimedActionNode { time: 0, index: 0 }
    }
}

/// A binary min-heap of timed actions keyed by deadline.
///
/// Actions are named by ids handed out by `new_node`; `nodes[id]` holds the
/// action's deadline and its slot, and `data` holds the ids in heap order.
/// Viewed as a map from each scheduled id to its deadline.
pub struct TimedActionBinaryHeap {
    nodes: Vec<TimedActionNode>,
    data: Vec<usize>,
}

impl View for TimedActionBinaryHeap {
    type V = Map<usize, u64>;

    closed spec fn view(&self) -> Map<usize, u64> {
        Map::new(|id: usize| self.contains_spec(id), |id: usize| self.nodes@[id as int].time)
    }
}

impl TimedActionBinaryHeap {
    /// Whether `id` sits in the heap: its recorded slot holds it.
    pub closed spec fn contains_spec(&self, id: usize) -> bool {
        &&& (id as int) < self.nodes@.len()
        &&& (self.nodes@[id as int].index as int) < self.data@.len()
        &&& self.data@[self.nodes@[id as int].index as int] == id
    }

    /// The action in the first slot, the root of the heap.
    pub closed spec fn root(&self) -> Option<usize> {
        if self.data@.len() > 0 {
            Some(self.data@[0])
        } else {
            None
        }
    }

    /// How many action ids have been handed out.
    pub closed spec fn num_nodes(&self) -> nat {
        self.nodes@.len()
    }

    /// Deadline of the action in heap slot `i`.
    pub closed spec fn key(&self, i: int) -> u64 {
        self.nodes@[self.data@[i] as int].time
    }

    /// Every slot names a known action whose recorded slot is that one.
    pub closed spec fn ids_ok(&self) -> bool {
        forall|i: int|
            #![trigger self.data@[i]]
            0 <= i < self.data@.len() ==> (self.data@[i] as int) < self.nodes@.len()
                && self.nodes@[self.data@[i] as int].index == i
    }

    pub closed spec fn edge_ok(&self, j: int) -> bool {
        self.key(parent(j)) <= self.key(j)
    }

    /// No deadline is earlier than its parent's.
    pub closed spec fn heap_ok(&self) -> bool {
        forall|j: int| 1 <= j < self.data@.len() ==> #[trigger] self.edge_ok(j)
    }

    /// The heap order may fail only at slot `k` and at the edges below it;
    /// the parent of `k` is still no later than `k`'s children.
    pub closed spec fn heap_except(&self, k: int) -> bool {
        &&& forall|j: int|
            1 <= j < self.data@.len() && j != k && parent(j) != k ==> #[trigger] self.edge_ok(j)
        &&& k > 0 ==> forall|j: int|
            1 <= j < self.data@.len() && parent(j) == k ==> self.key(parent(k)) <= #[trigger] self.key(j)
    }

    /// The heap order may fail only at the edges below slot `k`.
    pub closed spec fn heap_except_down(&self, k: int) -> bool {
        &&& forall|j: int| 1 <= j < self.data@.len() && parent(j) != k ==> #[trigger] self.edge_ok(j)
        &&& k > 0 ==> forall|j: int|
            1 <= j < self.data@.len() && parent(j) == k ==> self.key(parent(k)) <= #[trigger] self.key(j)
    }

    /// The heap's invariant: slots and records agree, and deadlines are in
    /// heap order.
    pub closed spec fn wf(&self) -> bool {
        self.ids_ok() && self.heap_ok()
    }

    /// The earliest deadline among the scheduled actions.
    pub open spec fn is_min(&self, t: u64) -> bool {
        earliest(self@, t)
    }

    /// Only handed-out ids are scheduled.
    pub proof fn lemma_dom_bounded(&self)
        ensures
            forall|id: usize| #[trigger] self@.contains_key(id) ==> (id as int) < self.num_nodes(),
    {
    }

    proof fn lemma_contains_slot(&self, i: int)
        requires
            self.ids_ok(),
            0 <= i < self.data@.len(),
        ensures
            self.contains_spec(self.data@[i]),
            self@.contains_key(self.data@[i]),
            self@[self.data@[i]] == self.key(i),
    {
    }

    proof fn lemma_root_min(&self, i: int)
        requires
            self.wf(),
            0 <= i < self.data@.len(),
        ensures
            self.key(0) <= self.key(i),
        decreases i,
    {
        if i > 0 {
            assert(self.edge_ok(i));
            self.lemma_root_min(parent(i));
        }
    }

    proof fn lemma_root_is_min(&self)
        requires
            self.wf(),
            self.data@.len() > 0,
        ensures
            self.is_min(self.key(0)),
            self@.contains_key(self.data@[0]),
            self@[self.data@[0]] == self.key(0),
    {
        self.lemma_contains_slot(0);
        assert forall|id: usize| self@.contains_key(id) implies self.key(0) <= #[trigger] self@[id] by {
            let i = self.nodes@[id as int].index as int;
            self.lemma_root_min(i);
        }
    }

    pub fn new() -> (r: TimedActionBinaryHeap)
        ensures
            r.wf(),
            r@ == Map::<usize, u64>::empty(),
            r.num_nodes() == 0,
    {
        let r = TimedActionBinaryHeap { nodes: Vec::new(), data: Vec::new() };
        assert(r@ =~= Map::<usize, u64>::empty());
        r
    }

    /// Hands out the id of a new, unscheduled action.
    pub fn new_node(&mut self) -> (id: usize)
        requires
            old(self).wf(),
        ensures
            final(self).wf(),
            final(self)@ == old(self)@,
            id == old(self).num_nodes(),
            final(self).num_nodes() == old(self).num_nodes() + 1,
    {
        let id = self.nodes.len();
        self.nodes.push(TimedActionNode::new());
        proof {
            assert(forall|i: int| 0 <= i < self.data@.len() ==> self.key(i) == old(self).key(i));
            assert(forall|j: int| 1 <= j < self.data@.len() ==> self.edge_ok(j) == old(self).edge_ok(j));
            assert(self@ =~= old(self)@);
        }
        id
    }

    pub fn is_empty(&self) -> (r: bool)
        requires
            self.wf(),
        ensures
            r == (self@ == Map::<usize, u64>::empty()),
    {
        if self.data.len() == 0 {
            assert(self@ =~= Map::<usize, u64>::empty());
            true
        } else {
            proof {
                self.lemma_contains_slot(0);
                assert(!Map::<usize, u64>::empty().contains_key(self.data@[0]));
            }
            false
        }
    }

    /// Exchanges slots `a` and `b`, keeping each moved action's slot record.
    fn swap(&mut self, a: usize, b: usize)
        requires
            old(self).ids_ok(),
            a < old(self).data@.len(),
            b < old(self).data@.len(),
            a != b,
        ensures
            final(self).ids_ok(),
            final(self).data@ == old(self).data@.update(a as int, old(self).data@[b as int]).update(
                b as int,
                old(self).data@[a as int],
            ),
            final(self).nodes@.len() == old(self).nodes@.len(),
            forall|id: int|
                0 <= id < final(self).nodes@.len() ==> #[trigger] final(self).nodes@[id].time
                    == old(self).nodes@[id].time,
            final(self)@ == old(self)@,
    {
        let ida = self.data[a];
        let idb = self.data[b];
        self.data.set(a, idb);
        self.data.set(b, ida);
        let mut na = self.nodes[ida];
        na.index = b;
        let mut nb = self.nodes[idb];
        nb.index = a;
        self.nodes.set(ida, na);
        self.nodes.set(idb, nb);
        proof {
            let o = old(self);
            assert(o.nodes@[o.data@[a as int] as int].index == a);
            assert(o.nodes@[o.data@[b as int] as int].index == b);
            assert forall|i: int| 0 <= i < self.data@.len() implies (self.data@[i] as int) < self.nodes@.len()
                && self.nodes@[self.data@[i] as int].index == i by {
                assert(o.nodes@[o.data@[i] as int].index == i);
            }
            assert forall|id: usize| #[trigger] self.contains_spec(id) == o.contains_spec(id) by {
                if o.contains_spec(id) {
                    let i = o.nodes@[id as int].index as int;
                    assert(o.data@[i] == id);
                }
                if self.contains_spec(id) {
                    let i = self.nodes@[id as int].index as int;
                    assert(self.data@[i] == id);
                    assert(o.nodes@[o.data@[i] as int].index == i);
                }
            }
            assert(self@ =~= o@);
        }
    }

    /// Moves the action in slot `i` up while it is strictly earlier than its
    /// parent; returns its final slot. Where it does not move, nothing changes.
    fn sift_up(&mut self, i: usize) -> (r: usize)
        requires
            old(self).ids_ok(),
            i < old(self).data@.len(),
            old(self).heap_except(i as int),
        ensures
            final(self).ids_ok(),
            final(self)@ == old(self)@,
            final(self).data@.len() == old(self).data@.len(),
            final(self).nodes@.len() == old(self).nodes@.len(),
            forall|id: int|
                0 <= id < final(self).nodes@.len() ==> #[trigger] final(self).nodes@[id].time
                    == old(self).nodes@[id].time,
            final(self).heap_ok() || (r == i && final(self).data@ == old(self).data@
                && final(self).heap_except_down(i as int)),
            r <= i,
            final(self).data@[r as int] == old(self).data@[i as int],
            (r == i) == (i == 0 || old(self).key(i as int) >= old(self).key(parent(i as int))),
    {
        let mut idx = i;
        let mut moved = false;
        loop
            invariant
                self.ids_ok(),
                idx < self.data@.len(),
                self.heap_except(idx as int),
                self@ == old(self)@,
                self.data@.len() == old(self).data@.len(),
                self.nodes@.len() == old(self).nodes@.len(),
                forall|id: int|
                    0 <= id < self.nodes@.len() ==> #[trigger] self.nodes@[id].time
                        == old(self).nodes@[id].time,
                moved ==> forall|j: int|
                    1 <= j < self.data@.len() && parent(j) == idx ==> self.key(idx as int)
                        <= #[trigger] self.key(j),
                !moved ==> idx == i && self.data@ == old(self).data@,
                idx <= i,
                self.data@[idx as int] == old(self).data@[i as int],
                moved ==> idx < i && i > 0 && old(self).key(i as int) < old(self).key(parent(i as int)),
            ensures
                self.ids_ok(),
                idx < self.data@.len(),
                self.heap_except(idx as int),
                self@ == old(self)@,
                self.data@.len() == old(self).data@.len(),
                self.nodes@.len() == old(self).nodes@.len(),
                forall|id: int|
                    0 <= id < self.nodes@.len() ==> #[trigger] self.nodes@[id].time
                        == old(self).nodes@[id].time,
                moved ==> forall|j: int|
                    1 <= j < self.data@.len() && parent(j) == idx ==> self.key(idx as int)
                        <= #[trigger] self.key(j),
                !moved ==> idx == i && self.data@ == old(self).data@,
                idx <= i,
                self.data@[idx as int] == old(self).data@[i as int],
                moved ==> idx < i && i > 0 && old(self).key(i as int) < old(self).key(parent(i as int)),
                idx == 0 || self.edge_ok(idx as int),
            decreases idx,
        {
            if idx == 0 {
                break;
            }
            let p = (idx - 1) / 2;
            if self.nodes[self.data[idx]].time >= self.nodes[self.data[p]].time {
                assert(self.edge_ok(idx as int));
                break;
            }
            let ghost before = *self;
            self.swap(idx, p);
            proof {
                if !moved {
                    assert(old(self).key(i as int) < old(self).key(parent(i as int)));
                }
                assert forall|j: int|
                    1 <= j < self.data@.len() && j != p && parent(j) != p implies #[trigger] self.edge_ok(j) by {
                    assert(before.edge_ok(j) || j == idx || parent(j) == idx);
                    if parent(j) == idx {
                        assert(before.key(parent(idx as int)) <= before.key(j));
                    }
                }
                if p > 0 {
                    assert forall|j: int| 1 <= j < self.data@.len() && parent(j) == p implies self.key(
                        parent(p as int),
                    ) <= #[trigger] self.key(j) by {
                        assert(before.edge_ok(p as int));
                        if j != idx {
                            assert(before.edge_ok(j));
                        }
                    }
                }
                assert forall|j: int| 1 <= j < self.data@.len() && parent(j) == p implies self.key(
                    p as int,
                ) <= #[trigger] self.key(j) by {
                    if j != idx {
                        assert(before.edge_ok(j));
                    }
                }
            }
            idx = p;
            moved = true;
        }
        proof {
            if moved {
                assert forall|j: int| 1 <= j < self.data@.len() implies #[trigger] self.edge_ok(j) by {
                    if j != idx && parent(j) != idx {
                    } else if parent(j) == idx {
                        assert(self.key(idx as int) <= self.key(j));
                    }
                }
            } else {
                assert forall|j: int| 1 <= j < self.data@.len() && parent(j) != idx implies #[trigger] self.edge_ok(j) by {
                    if j != idx {
                    }
                }
            }
        }
        idx
    }

    /// Moves the action in slot `i` down, each time below the earlier of its
    /// children (the left one on a tie), until no child is strictly earlier;
    /// returns its final slot.
    fn sift_down(&mut self, i: usize) -> (r: usize)
        requires
            old(self).ids_ok(),
            i < old(self).data@.len(),
            old(self).heap_except_down(i as int),
        ensures
            (final(self).data@, r as int) == sift_down_spec(old(self).nodes@, old(self).data@, i as int),
            r >= i,
            final(self).data@[r as int] == old(self).data@[i as int],
            forall|j: int|
                1 <= j < final(self).data@.len() && parent(j) == r ==> final(self).key(r as int)
                    <= #[trigger] final(self).key(j),
            final(self).wf(),
            final(self)@ == old(self)@,
            final(self).data@.len() == old(self).data@.len(),
            final(self).nodes@.len() == old(self).nodes@.len(),
            forall|id: int|
                0 <= id < final(self).nodes@.len() ==> #[trigger] final(self).nodes@[id].time
                    == old(self).nodes@[id].time,
    {
        let mut idx = i;
        let end = self.data.len();
        loop
            invariant
                self.ids_ok(),
                end == self.data@.len(),
                idx < end,
                self.heap_except_down(idx as int),
                self@ == old(self)@,
                self.data@.len() == old(self).data@.len(),
                self.nodes@.len() == old(self).nodes@.len(),
                forall|id: int|
                    0 <= id < self.nodes@.len() ==> #[trigger] self.nodes@[id].time
                        == old(self).nodes@[id].time,
                idx >= i,
                self.data@[idx as int] == old(self).data@[i as int],
                sift_down_spec(old(self).nodes@, self.data@, idx as int) == sift_down_spec(
                    old(self).nodes@,
                    old(self).data@,
                    i as int,
                ),
            ensures
                self.ids_ok(),
                self.heap_ok(),
                idx < end,
                (self.data@, idx as int) == sift_down_spec(old(self).nodes@, old(self).data@, i as int),
                idx >= i,
                self.data@[idx as int] == old(self).data@[i as int],
                sift_down_spec(old(self).nodes@, self.data@, idx as int) == sift_down_spec(
                    old(self).nodes@,
                    old(self).data@,
                    i as int,
                ),

                self@ == old(self)@,
                self.data@.len() == old(self).data@.len(),
                self.nodes@.len() == old(self).nodes@.len(),
                forall|id: int|
                    0 <= id < self.nodes@.len() ==> #[trigger] self.nodes@[id].time
                        == old(self).nodes@[id].time,
            decreases end - idx,
        {
            if idx >= end / 2 {
                proof {
                    assert(sift_down_spec(old(self).nodes@, self.data@, idx as int) == (self.data@, idx as int));
                    assert forall|j: int| 1 <= j < self.data@.len() implies #[trigger] self.edge_ok(j) by {
                        assert(parent(j) != idx);
                    }
                }
                break;
            }
            let mut child = idx * 2 + 1;
            let right = child + 1;
            if right < end && self.nodes[self.data[right]].time < self.nodes[self.data[child]].time {
                child = right;
            }
            proof {
                let c = self.data@[child as int] as int;
                let k = self.data@[idx as int] as int;
                let l = self.data@[idx * 2 + 1] as int;
                assert(self.nodes@[c].time == old(self).nodes@[c].time);
                assert(self.nodes@[k].time == old(self).nodes@[k].time);
                assert(self.nodes@[l].time == old(self).nodes@[l].time);
                if right < end {
                    let rr = self.data@[right as int] as int;
                    assert(self.nodes@[rr].time == old(self).nodes@[rr].time);
                }
                assert(child == earlier_child(old(self).nodes@, self.data@, idx as int));
            }
            if self.nodes[self.data[child]].time >= self.nodes[self.data[idx]].time {
                proof {
                    assert(sift_down_spec(old(self).nodes@, self.data@, idx as int) == (self.data@, idx as int));
                    assert forall|j: int| 1 <= j < self.data@.len() implies #[trigger] self.edge_ok(j) by {
                        if parent(j) == idx {
                            assert(j == idx * 2 + 1 || j == idx * 2 + 2);
                        }
                    }
                }
                break;
            }
            let ghost before = *self;
            let ghost other: int = if child == idx * 2 + 1 { idx * 2 + 2 } else { idx * 2 + 1 };
            self.swap(idx, child);
            proof {
                assert(parent(child as int) == idx);
                assert(parent(other) == idx);
                assert forall|j: int| 1 <= j < self.data@.len() && parent(j) != child implies #[trigger] self.edge_ok(j) by {
                    if j == child {
                    } else if parent(j) == idx {
                        assert(j == other);
                    } else if j == idx {
                        assert(before.key(parent(idx as int)) <= before.key(child as int));
                    } else {
                        assert(before.edge_ok(j));
                    }
                }
                assert forall|j: int| 1 <= j < self.data@.len() && parent(j) == child implies self.key(
                    parent(child as int),
                ) <= #[trigger] self.key(j) by {
                    assert(before.edge_ok(j));
                }
            }
            idx = child;
        }
        proof {
            assert forall|j: int| 1 <= j < self.data@.len() && parent(j) == idx implies self.key(idx as int)
                <= #[trigger] self.key(j) by {
                assert(self.edge_ok(j));
            }
        }
        idx
    }

    /// Restores the heap order around slot `i`: up if the action there is
    /// earlier than its parent, else down.
    fn repair(&mut self, i: usize)
        requires
            old(self).ids_ok(),
            i < old(self).data@.len(),
            old(self).heap_except(i as int),
        ensures
            final(self).wf(),
            final(self)@ == old(self)@,
            final(self).nodes@.len() == old(self).nodes@.len(),
    {
        if self.sift_up(i) == i {
            proof {
                if self.heap_ok() && i > 0 {
                    assert(self.edge_ok(i as int));
                    assert forall|j: int| 1 <= j < self.data@.len() && parent(j) == i implies self.key(
                        parent(i as int),
                    ) <= #[trigger] self.key(j) by {
                        assert(self.edge_ok(j));
                    }
                }
            }
            self.sift_down(i);
        }
    }

    /// Whether `id` is scheduled.
    pub fn contains(&self, id: usize) -> (r: bool)
        ensures
            r == self@.contains_key(id),
    {
        id < self.nodes.len() && self.nodes[id].index < self.data.len() && self.data[self.nodes[id].index]
            == id
    }

    /// Schedules the unscheduled action `id` at `time`.
    pub fn push(&mut self, id: usize, time: u64)
        requires
            old(self).wf(),
            (id as int) < old(self).num_nodes(),
            !old(self)@.contains_key(id),
        ensures
            final(self).wf(),
            final(self)@ == old(self)@.insert(id, time),
            final(self).num_nodes() == old(self).num_nodes(),
    {
        let index = self.data.len();
        self.nodes.set(id, TimedActionNode { time, index });
        self.data.push(id);
        proof {
            let o = old(self);
            assert forall|i: int| 0 <= i < o.data@.len() implies self.data@[i] != id by {
                o.lemma_contains_slot(i);
            }
            assert(self.ids_ok());
            assert forall|i: int| 0 <= i < o.data@.len() implies self.key(i) == o.key(i) by {}
            assert forall|j: int| 1 <= j < self.data@.len() && j != index implies #[trigger] self.edge_ok(j) by {
                assert(o.edge_ok(j));
            }
            assert forall|x: usize| #[trigger] self.contains_spec(x) == (o.contains_spec(x) || x == id) by {
                if o.contains_spec(x) {
                    let i = o.nodes@[x as int].index as int;
                    assert(o.data@[i] == x);
                }
            }
            assert(self@ =~= o@.insert(id, time));
        }
        self.repair(index);
    }

    /// Gives the scheduled action `id` the deadline `time`.
    pub fn adjust(&mut self, id: usize, time: u64)
        requires
            old(self).wf(),
            old(self)@.contains_key(id),
        ensures
            final(self).wf(),
            final(self)@ == old(self)@.insert(id, time),
            final(self).num_nodes() == old(self).num_nodes(),
    {
        let index = self.nodes[id].index;
        self.nodes.set(id, TimedActionNode { time, index });
        proof {
            let o = old(self);
            assert forall|i: int| 0 <= i < o.data@.len() && i != index implies self.key(i) == o.key(i) by {
                o.lemma_contains_slot(i);
            }
            assert forall|j: int| 1 <= j < self.data@.len() && j != index && parent(j) != index implies #[trigger] self.edge_ok(j) by {
                assert(o.edge_ok(j));
            }
            if index > 0 {
                assert(o.edge_ok(index as int));
                assert forall|j: int| 1 <= j < self.data@.len() && parent(j) == index implies self.key(
                    parent(index as int),
                ) <= #[trigger] self.key(j) by {
                    assert(o.edge_ok(j));
                }
            }
            assert forall|x: usize| #[trigger] self.contains_spec(x) == o.contains_spec(x) by {}
            assert(self@ =~= o@.insert(id, time));
        }
        self.repair(index);
    }

    /// Unschedules the scheduled action `id`: the last slot moves into its
    /// place and the heap order is restored there.
    pub fn remove(&mut self, id: usize)
        requires
            old(self).wf(),
            old(self)@.contains_key(id),
        ensures
            final(self).wf(),
            final(self)@ == old(self)@.remove(id),
            final(self).num_nodes() == old(self).num_nodes(),
    {
        let index = self.nodes[id].index;
        let last = self.data.len() - 1;
        if index == last {
            self.data.pop();
            proof {
                let o = old(self);
                assert forall|j: int| 1 <= j < self.data@.len() implies #[trigger] self.edge_ok(j) by {
                    assert(o.edge_ok(j));
                }
                assert forall|x: usize| #[trigger] self.contains_spec(x) == (o.contains_spec(x) && x != id) by {
                    if o.contains_spec(x) && x != id {
                        o.lemma_contains_slot(o.nodes@[x as int].index as int);
                    }
                }
                assert(self@ =~= o@.remove(id));
            }
        } else {
            let ghost o = *self;
            self.swap(index, last);
            let ghost mid = *self;
            self.data.pop();
            proof {
                assert(mid.nodes@[id as int].index == last);
                assert forall|i: int| 0 <= i < self.data@.len() implies self.key(i) == mid.key(i) by {}
                assert forall|j: int| 1 <= j < self.data@.len() && j != index && parent(j) != index implies #[trigger] self.edge_ok(j) by {
                    assert(o.edge_ok(j));
                }
                if index > 0 {
                    assert(o.edge_ok(index as int));
                    assert forall|j: int| 1 <= j < self.data@.len() && parent(j) == index implies self.key(
                        parent(index as int),
                    ) <= #[trigger] self.key(j) by {
                        assert(o.edge_ok(j));
                    }
                }
                assert forall|x: usize| #[trigger] self.contains_spec(x) == (mid.contains_spec(x) && x != id) by {
                    if mid.contains_spec(x) && x != id {
                        mid.lemma_contains_slot(mid.nodes@[x as int].index as int);
                    }
                }
                assert(self@ =~= o@.remove(id));
            }
            self.repair(index);
        }
    }

    /// The action due first, if its deadline is not after `now`.
    pub fn peek(&self, now: u64) -> (r: Option<usize>)
        requires
            self.wf(),
        ensures
            r == (match self.root() {
                Some(id) => if self@[id] <= now {
                    Some(id)
                } else {
                    None
                },
                None => None,
            }),
            match r {
                Some(id) => self@.contains_key(id) && self@[id] <= now && self.is_min(self@[id]),
                None => forall|id: usize| self@.contains_key(id) ==> now < #[trigger] self@[id],
            },
    {
        if self.data.len() == 0 {
            None
        } else {
            proof {
                self.lemma_root_is_min();
            }
            let id = self.data[0];
            if self.nodes[id].time <= now {
                Some(id)
            } else {
                None
            }
        }
    }

    /// The earliest deadline, if any action is scheduled.
    pub fn peek_time(&self) -> (r: Option<u64>)
        requires
            self.wf(),
        ensures
            r == (match self.root() {
                Some(id) => Some(self@[id]),
                None => None,
            }),
            match r {
                Some(t) => self.is_min(t),
                None => self@ == Map::<usize, u64>::empty(),
            },
    {
        if self.data.len() == 0 {
            assert(self@ =~= Map::<usize, u64>::empty());
            None
        } else {
            proof {
                self.lemma_root_is_min();
            }
            Some(self.nodes[self.data[0]].time)
        }
    }
}

} // verus!
