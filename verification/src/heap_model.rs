//! The mathematical model of the managed heap and of a collection cycle.
//!
//! A [`HeapView`] is what a heap holds, as plain mathematical values. The
//! functions of this module say what each operation of the collector does to
//! such a view; the executable heap is proved to follow them step by step.

use crate::gc_header::{align_up_spec, GcColor, GcHeader, GcPhase};
use vstd::prelude::*;

verus! {

/// The address of the first header that a heap hands out.
pub const ADDRESS_BASE: usize = 4096;

/// Number of gray objects that one marking step scans at most.
pub const DEFAULT_MARK_STEP_SIZE: usize = 100;

/// Number of objects that one sweeping step visits at most.
pub const DEFAULT_SWEEP_STEP_SIZE: usize = 100;

/// Number of allocated bytes above which a collection is due before the first cycle.
pub const DEFAULT_GC_THRESHOLD: usize = 1024 * 1024;

/// One managed object, as the collector sees it.
pub struct ObjectView {
    /// The marking color.
    pub color: GcColor,
    /// Address of the owning context.
    pub context: usize,
    /// Size of the object body in bytes.
    pub alloc_size: usize,
}

/// The pointers that the embedder holds: the roots, and for each object body
/// the strong pointers stored in it.
pub struct ObjectGraph {
    /// Body addresses held outside the heap, in the order they are reported.
    pub roots: Seq<usize>,
    /// For each body address, the strong pointers in that body, in the order
    /// they are reported. A body without an entry holds none.
    pub edges: Map<usize, Seq<usize>>,
}

impl ObjectGraph {
    /// The strong pointers stored in the body at `object_ptr`.
    pub open spec fn out_edges(self, object_ptr: usize) -> Seq<usize> {
        if self.edges.contains_key(object_ptr) {
            self.edges[object_ptr]
        } else {
            Seq::empty()
        }
    }
}

/// What a heap holds.
pub struct HeapView {
    /// The live objects by the address of their header.
    pub objects: Map<usize, ObjectView>,
    /// The list of all objects as header addresses, most recent first.
    pub list: Seq<usize>,
    /// The gray queue as header addresses; the last one is scanned next.
    pub gray: Seq<usize>,
    /// The phase of the current cycle.
    pub phase: GcPhase,
    /// While sweeping, the position of the sweep cursor in `list`.
    pub cursor: int,
    /// Bytes counted as allocated.
    pub bytes_allocated: int,
    /// Objects counted as allocated.
    pub num_objects: int,
    /// Allocated bytes above which a collection is due.
    pub gc_threshold: int,
    /// Bytes freed so far in the current cycle.
    pub bytes_freed: int,
    /// Objects freed so far in the current cycle.
    pub objects_freed: int,
    /// The address at which the next header is placed.
    pub next_address: int,
}

/// Size in bytes of the block that backs a body of `size` bytes.
pub open spec fn block_size(size: int) -> int {
    GcHeader::SIZE + align_up_spec(size, 8)
}

/// Sum of the sizes, headers included, of the objects on `list`.
pub open spec fn total_bytes(objects: Map<usize, ObjectView>, list: Seq<usize>) -> int
    decreases list.len(),
{
    if list.len() == 0 {
        0
    } else {
        total_bytes(objects, list.drop_last()) + GcHeader::SIZE + objects[list.last()].alloc_size
    }
}

/// Number of objects on `list` that are not black.
pub open spec fn count_unscanned(objects: Map<usize, ObjectView>, list: Seq<usize>) -> int
    decreases list.len(),
{
    if list.len() == 0 {
        0
    } else {
        count_unscanned(objects, list.drop_last()) + if objects[list.last()].color
            == GcColor::Black {
            0int
        } else {
            1int
        }
    }
}

impl HeapView {
    /// The view of a heap that holds nothing.
    pub open spec fn empty() -> HeapView {
        HeapView {
            objects: Map::empty(),
            list: Seq::empty(),
            gray: Seq::empty(),
            phase: GcPhase::Idle,
            cursor: 0,
            bytes_allocated: 0,
            num_objects: 0,
            gc_threshold: DEFAULT_GC_THRESHOLD as int,
            bytes_freed: 0,
            objects_freed: 0,
            next_address: ADDRESS_BASE as int,
        }
    }

    /// Whether a collection is in progress.
    pub open spec fn gc_in_progress(self) -> bool {
        self.phase != GcPhase::Idle
    }

    /// Whether the heap is in a phase in which objects are marked.
    pub open spec fn is_marking(self) -> bool {
        self.phase == GcPhase::RootScanning || self.phase == GcPhase::Marking
    }

    /// Whether a collection is due.
    pub open spec fn should_gc(self) -> bool {
        self.bytes_allocated > self.gc_threshold && self.phase == GcPhase::Idle
    }

    /// Whether `object_ptr` is the body address of a live object.
    pub open spec fn manages(self, object_ptr: usize) -> bool {
        object_ptr >= GcHeader::SIZE && self.objects.contains_key(
            (object_ptr - GcHeader::SIZE) as usize,
        )
    }

    /// The color of the live object whose body is at `object_ptr`.
    pub open spec fn color_of(self, object_ptr: usize) -> GcColor {
        self.objects[(object_ptr - GcHeader::SIZE) as usize].color
    }

    /// Whether the object at `object_ptr` counts as alive: it is live and not white.
    pub open spec fn is_alive(self, object_ptr: usize) -> bool {
        self.manages(object_ptr) && self.color_of(object_ptr) != GcColor::White
    }

    /// Whether every live object is white.
    pub open spec fn all_white(self) -> bool {
        forall|a: usize| #[trigger]
            self.objects.contains_key(a) ==> self.objects[a].color == GcColor::White
    }

    /// Whether the objects that the sweep cursor has passed are all white. Outside
    /// the sweeping phase this says nothing.
    pub open spec fn swept_white(self) -> bool {
        self.phase == GcPhase::Sweeping ==> forall|i: int|
            0 <= i < self.cursor && i < self.list.len() ==> (#[trigger] self.objects[self.list[i]]).color
                == GcColor::White
    }

    /// The invariant of a heap.
    pub open spec fn wf(self) -> bool {
        &&& self.list.no_duplicates()
        &&& forall|a: usize| #[trigger] self.objects.contains_key(a) <==> self.list.contains(a)
        &&& forall|a: usize| #[trigger]
            self.objects.contains_key(a) ==> {
                &&& a % 8 == 0
                &&& ADDRESS_BASE <= a
                &&& a + block_size(self.objects[a].alloc_size as int) <= self.next_address
                &&& self.objects[a].context % 8 == 0
            }
        &&& self.gray.no_duplicates()
        &&& forall|a: usize| #[trigger]
            self.gray.contains(a) <==> self.objects.contains_key(a) && self.objects[a].color
                == GcColor::Gray
        &&& !self.is_marking() ==> self.gray.len() == 0
        &&& self.bytes_allocated == total_bytes(self.objects, self.list) + self.bytes_freed
        &&& self.num_objects == self.list.len() + self.objects_freed
        &&& 0 <= self.objects_freed
        &&& self.objects_freed * GcHeader::SIZE <= self.bytes_freed
        &&& self.phase != GcPhase::Sweeping ==> self.bytes_freed == 0 && self.objects_freed == 0
            && self.cursor == 0
        &&& 0 <= self.cursor <= self.list.len()
        &&& ADDRESS_BASE <= self.next_address <= usize::MAX / 2
        &&& self.next_address % 8 == 0
        &&& self.bytes_allocated <= self.next_address - ADDRESS_BASE
        &&& DEFAULT_GC_THRESHOLD <= self.gc_threshold <= usize::MAX
    }

    /// Whether `self` differs from `before` in colors and in the gray queue at most.
    pub open spec fn same_but_marks(self, before: HeapView) -> bool {
        &&& self.objects.dom() == before.objects.dom()
        &&& forall|a: usize| #[trigger]
            self.objects.contains_key(a) ==> self.objects[a].alloc_size
                == before.objects[a].alloc_size && self.objects[a].context
                == before.objects[a].context
        &&& self.list == before.list
        &&& self.phase == before.phase
        &&& self.cursor == before.cursor
        &&& self.bytes_allocated == before.bytes_allocated
        &&& self.num_objects == before.num_objects
        &&& self.gc_threshold == before.gc_threshold
        &&& self.bytes_freed == before.bytes_freed
        &&& self.objects_freed == before.objects_freed
        &&& self.next_address == before.next_address
    }

    /// Marks the object at `object_ptr` gray if it is live and white.
    pub open spec fn mark_one(self, object_ptr: usize) -> HeapView {
        let a = (object_ptr - GcHeader::SIZE) as usize;
        if self.manages(object_ptr) && self.objects[a].color == GcColor::White {
            HeapView {
                objects: self.objects.insert(
                    a,
                    ObjectView { color: GcColor::Gray, ..self.objects[a] },
                ),
                gray: self.gray.push(a),
                ..self
            }
        } else {
            self
        }
    }

    /// Marks the objects at `ptrs` one after the other.
    pub open spec fn mark_all(self, ptrs: Seq<usize>) -> HeapView
        decreases ptrs.len(),
    {
        if ptrs.len() == 0 {
            self
        } else {
            self.mark_all(ptrs.drop_last()).mark_one(ptrs.last())
        }
    }

    /// What the write barrier does for a pointer to `target` that is being stored.
    pub open spec fn write_barrier(self, target: usize) -> HeapView {
        if self.is_marking() {
            self.mark_one(target)
        } else {
            self
        }
    }

    /// The heap as an allocation finds it: a collection in progress advances by
    /// one step first.
    pub open spec fn step_if_collecting(self, graph: ObjectGraph) -> HeapView {
        if self.gc_in_progress() {
            self.step(graph)
        } else {
            self
        }
    }

    /// Whether a block for a body of `size` bytes can still be had.
    pub open spec fn can_alloc(self, size: usize) -> bool {
        self.next_address + block_size(size as int) <= usize::MAX / 2
    }

    /// Adds a new object with a body of `size` bytes owned by `context`. The object
    /// is black while a collection is in progress and white otherwise.
    pub open spec fn allocate(self, size: usize, context: usize) -> HeapView {
        let a = self.next_address as usize;
        HeapView {
            objects: self.objects.insert(
                a,
                ObjectView {
                    color: if self.gc_in_progress() {
                        GcColor::Black
                    } else {
                        GcColor::White
                    },
                    context,
                    alloc_size: size,
                },
            ),
            list: seq![a] + self.list,
            cursor: if self.phase == GcPhase::Sweeping {
                self.cursor + 1
            } else {
                self.cursor
            },
            bytes_allocated: self.bytes_allocated + GcHeader::SIZE + size,
            num_objects: self.num_objects + 1,
            next_address: self.next_address + block_size(size as int),
            ..self
        }
    }

    /// Serves allocation requests, each a body size and a context address, one
    /// after the other. A request for which no block can be had changes nothing.
    pub open spec fn allocate_all(self, requests: Seq<(usize, usize)>) -> HeapView
        decreases requests.len(),
    {
        if requests.len() == 0 {
            self
        } else {
            let served = self.allocate_all(requests.drop_last());
            if served.can_alloc(requests.last().0) {
                served.allocate(requests.last().0, requests.last().1)
            } else {
                served
            }
        }
    }

    /// Starts a cycle: marks the roots gray and enters the marking phase. A heap
    /// that is already collecting is left as it is.
    pub open spec fn start(self, roots: Seq<usize>) -> HeapView {
        if self.gc_in_progress() {
            self
        } else {
            HeapView {
                phase: GcPhase::Marking,
                ..(HeapView {
                    phase: GcPhase::RootScanning,
                    bytes_freed: 0,
                    objects_freed: 0,
                    ..self
                }).mark_all(roots)
            }
        }
    }

    /// Takes the top of the gray queue and colors it black.
    pub open spec fn blacken_top(self) -> HeapView {
        let a = self.gray.last();
        HeapView {
            objects: self.objects.insert(a, ObjectView { color: GcColor::Black, ..self.objects[a] }),
            gray: self.gray.drop_last(),
            ..self
        }
    }

    /// Scans up to `limit` gray objects; enters the weak reference phase when the
    /// gray queue is found empty.
    pub open spec fn mark_step(self, graph: ObjectGraph, limit: nat) -> HeapView
        decreases limit,
    {
        if limit == 0 {
            self
        } else if self.gray.len() == 0 {
            HeapView { phase: GcPhase::WeakRefProcessing, ..self }
        } else {
            let object_ptr = (self.gray.last() + GcHeader::SIZE) as usize;
            self.blacken_top().mark_all(graph.out_edges(object_ptr)).mark_step(
                graph,
                (limit - 1) as nat,
            )
        }
    }

    /// Leaves the weak reference phase and puts the sweep cursor at the head of the list.
    pub open spec fn begin_sweep(self) -> HeapView {
        HeapView { phase: GcPhase::Sweeping, cursor: 0, ..self }
    }

    /// Ends a cycle: takes what was freed off the counters, sets the next
    /// threshold to twice the live bytes but at least the default, and goes idle.
    pub open spec fn finish_sweep(self) -> HeapView {
        let live = self.bytes_allocated - self.bytes_freed;
        HeapView {
            bytes_allocated: live,
            num_objects: self.num_objects - self.objects_freed,
            gc_threshold: if live * 2 >= DEFAULT_GC_THRESHOLD {
                live * 2
            } else {
                DEFAULT_GC_THRESHOLD as int
            },
            phase: GcPhase::Idle,
            cursor: 0,
            bytes_freed: 0,
            objects_freed: 0,
            ..self
        }
    }

    /// Visits the object at the cursor: frees it if it is white, else colors it
    /// white and moves the cursor on.
    pub open spec fn sweep_one(self) -> HeapView {
        let a = self.list[self.cursor];
        if self.objects[a].color == GcColor::White {
            HeapView {
                objects: self.objects.remove(a),
                list: self.list.remove(self.cursor),
                bytes_freed: self.bytes_freed + GcHeader::SIZE + self.objects[a].alloc_size,
                objects_freed: self.objects_freed + 1,
                ..self
            }
        } else {
            HeapView {
                objects: self.objects.insert(
                    a,
                    ObjectView { color: GcColor::White, ..self.objects[a] },
                ),
                cursor: self.cursor + 1,
                ..self
            }
        }
    }

    /// Visits up to `limit` objects with the sweep cursor; ends the cycle when the
    /// cursor is found at the end of the list.
    pub open spec fn sweep_step(self, limit: nat) -> HeapView
        decreases limit,
    {
        if limit == 0 {
            self
        } else if self.cursor >= self.list.len() {
            self.finish_sweep()
        } else {
            self.sweep_one().sweep_step((limit - 1) as nat)
        }
    }

    /// One step of the collector, by phase.
    pub open spec fn step(self, graph: ObjectGraph) -> HeapView {
        match self.phase {
            GcPhase::Idle => self,
            GcPhase::RootScanning => HeapView { phase: GcPhase::Marking, ..self },
            GcPhase::Marking => self.mark_step(graph, DEFAULT_MARK_STEP_SIZE as nat),
            GcPhase::WeakRefProcessing => self.begin_sweep(),
            GcPhase::Sweeping => self.sweep_step(DEFAULT_SWEEP_STEP_SIZE as nat),
        }
    }

    /// A bound on the work that is left in the current cycle: every step of a
    /// collection in progress makes it smaller.
    pub open spec fn remaining_work(self) -> int {
        match self.phase {
            GcPhase::Idle => 0,
            GcPhase::Sweeping => 1 + self.list.len() - self.cursor,
            GcPhase::WeakRefProcessing => 2 + self.list.len() as int,
            GcPhase::Marking => 3 + self.list.len() + count_unscanned(self.objects, self.list),
            GcPhase::RootScanning => 4 + 2 * self.list.len() as int,
        }
    }

    /// Whether `n` steps, and no fewer, leave the heap idle, for `n` at least 1.
    pub open spec fn idle_after(self, graph: ObjectGraph, n: nat) -> bool {
        &&& n >= 1
        &&& self.steps(graph, n).phase == GcPhase::Idle
        &&& forall|k: nat| 1 <= k < n ==> (#[trigger] self.steps(graph, k)).phase != GcPhase::Idle
    }

    /// The number of steps that running the collection to its end takes: the
    /// least number of steps, one or more, that leaves the heap idle.
    pub open spec fn steps_to_idle(self, graph: ObjectGraph) -> nat {
        choose|n: nat| self.idle_after(graph, n)
    }

    /// The heap after the collection has been run to its end.
    pub open spec fn finished(self, graph: ObjectGraph) -> HeapView {
        self.steps(graph, self.steps_to_idle(graph))
    }

    /// The heap after a whole cycle: started with the roots of `graph` and run
    /// to its end.
    pub open spec fn collected(self, graph: ObjectGraph) -> HeapView {
        self.start(graph.roots).finished(graph)
    }

    /// The heap after `n` steps of the collector.
    pub open spec fn steps(self, graph: ObjectGraph, n: nat) -> HeapView
        decreases n,
    {
        if n == 0 {
            self
        } else {
            self.steps(graph, (n - 1) as nat).step(graph)
        }
    }
}

/// The sum of sizes depends on the sizes of the listed objects alone.
pub proof fn lemma_total_bytes_same_sizes(
    o1: Map<usize, ObjectView>,
    o2: Map<usize, ObjectView>,
    list: Seq<usize>,
)
    requires
        forall|i: int| 0 <= i < list.len() ==> o1[list[i]].alloc_size == o2[list[i]].alloc_size,
    ensures
        total_bytes(o1, list) == total_bytes(o2, list),
    decreases list.len(),
{
    if list.len() > 0 {
        lemma_total_bytes_same_sizes(o1, o2, list.drop_last());
    }
}

/// Marking one pointer keeps the invariant and touches colors and the gray queue only.
pub proof fn lemma_mark_one_wf(h: HeapView, object_ptr: usize)
    requires
        h.wf(),
        h.is_marking(),
    ensures
        h.mark_one(object_ptr).wf(),
        h.mark_one(object_ptr).same_but_marks(h),
{
    let h2 = h.mark_one(object_ptr);
    let a = (object_ptr - GcHeader::SIZE) as usize;
    if h.manages(object_ptr) && h.objects[a].color == GcColor::White {
        assert(h.list.contains(a));
        assert(!h.gray.contains(a));
        assert forall|x: usize| #[trigger] h2.gray.contains(x) <==> h2.objects.contains_key(x)
            && h2.objects[x].color == GcColor::Gray by {
            if x == a {
                assert(h2.gray[h.gray.len() as int] == a);
            } else {
                if h.gray.contains(x) {
                    let i = choose|i: int| 0 <= i < h.gray.len() && h.gray[i] == x;
                    assert(h2.gray[i] == x);
                }
                if h2.gray.contains(x) {
                    let i = choose|i: int| 0 <= i < h2.gray.len() && h2.gray[i] == x;
                    assert(h.gray[i] == x);
                }
            }
        }
        lemma_total_bytes_same_sizes(h.objects, h2.objects, h.list);
        assert(h2.objects.dom() =~= h.objects.dom());
    }
}

/// Marking a sequence of pointers keeps the invariant and touches colors and
/// the gray queue only.
pub proof fn lemma_mark_all_wf(h: HeapView, ptrs: Seq<usize>)
    requires
        h.wf(),
        h.is_marking(),
    ensures
        h.mark_all(ptrs).wf(),
        h.mark_all(ptrs).same_but_marks(h),
    decreases ptrs.len(),
{
    if ptrs.len() > 0 {
        lemma_mark_all_wf(h, ptrs.drop_last());
        lemma_mark_one_wf(h.mark_all(ptrs.drop_last()), ptrs.last());
    }
}

/// Marking the one pointer of a sequence of one is marking that pointer.
pub proof fn lemma_mark_all_single(h: HeapView, object_ptr: usize)
    ensures
        h.mark_all(seq![object_ptr]) == h.mark_one(object_ptr),
        h.mark_all(Seq::empty()) == h,
{
    let single = seq![object_ptr];
    assert(single.drop_last() =~= Seq::<usize>::empty());
    assert(single.last() == object_ptr);
    assert(h.mark_all(single.drop_last()) == h);
}

/// Marking two sequences one after the other is marking their concatenation.
pub proof fn lemma_mark_all_concat(h: HeapView, first: Seq<usize>, second: Seq<usize>)
    ensures
        h.mark_all(first + second) == h.mark_all(first).mark_all(second),
    decreases second.len(),
{
    if second.len() == 0 {
        assert(first + second =~= first);
    } else {
        lemma_mark_all_concat(h, first, second.drop_last());
        assert((first + second).drop_last() =~= first + second.drop_last());
    }
}

/// Scanning the top of the gray queue keeps the invariant.
pub proof fn lemma_blacken_top_wf(h: HeapView)
    requires
        h.wf(),
        h.is_marking(),
        h.gray.len() > 0,
    ensures
        h.blacken_top().wf(),
        h.blacken_top().same_but_marks(h),
        h.objects.contains_key(h.gray.last()),
{
    let h2 = h.blacken_top();
    let a = h.gray.last();
    assert(h.gray.contains(a));
    assert forall|x: usize| #[trigger] h2.gray.contains(x) <==> h2.objects.contains_key(x)
        && h2.objects[x].color == GcColor::Gray by {
        if h2.gray.contains(x) {
            let i = choose|i: int| 0 <= i < h2.gray.len() && h2.gray[i] == x;
            assert(h.gray[i] == x);
            assert(h.gray[h.gray.len() - 1] == a);
        }
        if x != a && h.gray.contains(x) {
            let i = choose|i: int| 0 <= i < h.gray.len() && h.gray[i] == x;
            assert(h2.gray[i] == x);
        }
    }
    lemma_total_bytes_same_sizes(h.objects, h2.objects, h.list);
    assert(h2.objects.dom() =~= h.objects.dom());
}

/// A marking step keeps the invariant and ends in the marking phase or in the
/// weak reference phase.
pub proof fn lemma_mark_step_wf(h: HeapView, graph: ObjectGraph, limit: nat)
    requires
        h.wf(),
        h.phase == GcPhase::Marking,
    ensures
        h.mark_step(graph, limit).wf(),
        h.mark_step(graph, limit).phase == GcPhase::Marking || h.mark_step(graph, limit).phase
            == GcPhase::WeakRefProcessing,
    decreases limit,
{
    if limit == 0 {
    } else if h.gray.len() == 0 {
    } else {
        let object_ptr = (h.gray.last() + GcHeader::SIZE) as usize;
        lemma_blacken_top_wf(h);
        lemma_mark_all_wf(h.blacken_top(), graph.out_edges(object_ptr));
        lemma_mark_step_wf(
            h.blacken_top().mark_all(graph.out_edges(object_ptr)),
            graph,
            (limit - 1) as nat,
        );
    }
}

/// Taking one object off a list without duplicates takes its size off the sum.
pub proof fn lemma_total_bytes_remove(objects: Map<usize, ObjectView>, list: Seq<usize>, i: int)
    requires
        list.no_duplicates(),
        0 <= i < list.len(),
    ensures
        total_bytes(objects.remove(list[i]), list.remove(i)) == total_bytes(objects, list)
            - GcHeader::SIZE - objects[list[i]].alloc_size,
    decreases list.len(),
{
    let rest = list.remove(i);
    let objects2 = objects.remove(list[i]);
    if i == list.len() - 1 {
        assert(rest =~= list.drop_last());
        assert forall|j: int| 0 <= j < rest.len() implies objects[rest[j]].alloc_size
            == objects2[rest[j]].alloc_size by {
            assert(rest[j] == list[j]);
        }
        lemma_total_bytes_same_sizes(objects, objects2, rest);
    } else {
        assert(rest.drop_last() =~= list.drop_last().remove(i));
        assert(rest.last() == list.last());
        assert(list.drop_last()[i] == list[i]);
        lemma_total_bytes_remove(objects, list.drop_last(), i);
    }
}

/// Putting a new object in front of a list adds its size to the sum.
pub proof fn lemma_total_bytes_prepend(
    objects: Map<usize, ObjectView>,
    list: Seq<usize>,
    a: usize,
    object: ObjectView,
)
    requires
        !list.contains(a),
    ensures
        total_bytes(objects.insert(a, object), seq![a] + list) == total_bytes(objects, list)
            + GcHeader::SIZE + object.alloc_size,
    decreases list.len(),
{
    let objects2 = objects.insert(a, object);
    let longer = seq![a] + list;
    if list.len() == 0 {
        assert(longer.drop_last() =~= Seq::<usize>::empty());
        assert(longer.last() == a);
        assert(total_bytes(objects2, longer.drop_last()) == 0);
    } else {
        assert(longer.drop_last() =~= seq![a] + list.drop_last());
        assert(longer.last() == list.last());
        assert(list[list.len() - 1] == list.last());
        assert(!list.drop_last().contains(a)) by {
            if list.drop_last().contains(a) {
                let j = choose|j: int| 0 <= j < list.drop_last().len() && list.drop_last()[j] == a;
                assert(list[j] == a);
            }
        }
        lemma_total_bytes_prepend(objects, list.drop_last(), a, object);
    }
}

/// A list holds at least a header's worth of bytes for each of its objects.
pub proof fn lemma_total_bytes_lower_bound(objects: Map<usize, ObjectView>, list: Seq<usize>)
    ensures
        total_bytes(objects, list) >= list.len() * GcHeader::SIZE,
    decreases list.len(),
{
    if list.len() > 0 {
        lemma_total_bytes_lower_bound(objects, list.drop_last());
    }
}

/// Visiting one object with the sweep cursor keeps the invariant.
pub proof fn lemma_sweep_one_wf(h: HeapView)
    requires
        h.wf(),
        h.phase == GcPhase::Sweeping,
        h.cursor < h.list.len(),
    ensures
        h.sweep_one().wf(),
        h.sweep_one().phase == GcPhase::Sweeping,
        h.objects.contains_key(h.list[h.cursor]),
{
    let h2 = h.sweep_one();
    let a = h.list[h.cursor];
    assert(h.list.contains(a));
    if h.objects[a].color == GcColor::White {
        lemma_total_bytes_remove(h.objects, h.list, h.cursor);
        assert forall|x: usize| #[trigger] h2.objects.contains_key(x) <==> h2.list.contains(
            x,
        ) by {
            if h2.list.contains(x) {
                let j = choose|j: int| 0 <= j < h2.list.len() && h2.list[j] == x;
                if j < h.cursor {
                    assert(h.list[j] == x);
                } else {
                    assert(h.list[j + 1] == x);
                }
            }
            if x != a && h.list.contains(x) {
                let j = choose|j: int| 0 <= j < h.list.len() && h.list[j] == x;
                if j < h.cursor {
                    assert(h2.list[j] == x);
                } else {
                    assert(h2.list[j - 1] == x);
                }
            }
        }
        assert(h2.list.no_duplicates());
        assert(h2.gray =~= Seq::<usize>::empty());
    } else {
        lemma_total_bytes_same_sizes(h.objects, h2.objects, h.list);
        assert(h2.objects.dom() =~= h.objects.dom());
        assert(h2.gray =~= Seq::<usize>::empty());
    }
}

/// Ending the sweep keeps the invariant and leaves the heap idle.
pub proof fn lemma_finish_sweep_wf(h: HeapView)
    requires
        h.wf(),
        h.phase == GcPhase::Sweeping,
    ensures
        h.finish_sweep().wf(),
        h.finish_sweep().phase == GcPhase::Idle,
        0 <= h.bytes_freed <= h.bytes_allocated,
        0 <= h.objects_freed <= h.num_objects,
        (h.bytes_allocated - h.bytes_freed) * 2 <= usize::MAX,
{
    lemma_total_bytes_lower_bound(h.objects, h.list);
}

/// A sweeping step keeps the invariant and ends sweeping or idle.
pub proof fn lemma_sweep_step_wf(h: HeapView, limit: nat)
    requires
        h.wf(),
        h.phase == GcPhase::Sweeping,
    ensures
        h.sweep_step(limit).wf(),
        h.sweep_step(limit).phase == GcPhase::Sweeping || h.sweep_step(limit).phase
            == GcPhase::Idle,
    decreases limit,
{
    if limit == 0 {
    } else if h.cursor >= h.list.len() {
        lemma_finish_sweep_wf(h);
    } else {
        lemma_sweep_one_wf(h);
        lemma_sweep_step_wf(h.sweep_one(), (limit - 1) as nat);
    }
}

/// Starting a cycle keeps the invariant.
pub proof fn lemma_start_wf(h: HeapView, roots: Seq<usize>)
    requires
        h.wf(),
    ensures
        h.start(roots).wf(),
        h.gc_in_progress() ==> h.start(roots) == h,
        !h.gc_in_progress() ==> h.start(roots).phase == GcPhase::Marking,
{
    if !h.gc_in_progress() {
        let scanning = HeapView {
            phase: GcPhase::RootScanning,
            bytes_freed: 0,
            objects_freed: 0,
            ..h
        };
        lemma_mark_all_wf(scanning, roots);
    }
}

/// A step of the collector keeps the invariant and moves along the cycle:
/// from root scanning to marking, from marking to the weak reference phase,
/// from there to sweeping, and from sweeping to idle.
pub proof fn lemma_step_wf(h: HeapView, graph: ObjectGraph)
    requires
        h.wf(),
    ensures
        h.step(graph).wf(),
        h.phase == GcPhase::Idle ==> h.step(graph) == h,
        h.phase == GcPhase::RootScanning ==> h.step(graph).phase == GcPhase::Marking,
        h.phase == GcPhase::Marking ==> h.step(graph).phase == GcPhase::Marking || h.step(
            graph,
        ).phase == GcPhase::WeakRefProcessing,
        h.phase == GcPhase::WeakRefProcessing ==> h.step(graph).phase == GcPhase::Sweeping,
        h.phase == GcPhase::Sweeping ==> h.step(graph).phase == GcPhase::Sweeping || h.step(
            graph,
        ).phase == GcPhase::Idle,
{
    match h.phase {
        GcPhase::Idle => {},
        GcPhase::RootScanning => {},
        GcPhase::Marking => {
            lemma_mark_step_wf(h, graph, DEFAULT_MARK_STEP_SIZE as nat);
        },
        GcPhase::WeakRefProcessing => {},
        GcPhase::Sweeping => {
            lemma_sweep_step_wf(h, DEFAULT_SWEEP_STEP_SIZE as nat);
        },
    }
}

/// Adding an object keeps the invariant.
pub proof fn lemma_allocate_wf(h: HeapView, size: usize, context: usize)
    requires
        h.wf(),
        h.can_alloc(size),
        context % 8 == 0,
    ensures
        h.allocate(size, context).wf(),
        !h.objects.contains_key(h.next_address as usize),
        h.bytes_allocated + GcHeader::SIZE + size <= usize::MAX,
        h.num_objects + 1 <= usize::MAX,
{
    let h2 = h.allocate(size, context);
    let a = h.next_address as usize;
    let object = h2.objects[a];
    if h.objects.contains_key(a) {
        assert(align_up_spec(h.objects[a].alloc_size as int, 8) >= 0);
    }
    assert(!h.objects.contains_key(a));
    assert(!h.list.contains(a));
    assert(align_up_spec(size as int, 8) >= size);
    lemma_total_bytes_prepend(h.objects, h.list, a, object);
    lemma_total_bytes_lower_bound(h.objects, h.list);
    assert forall|x: usize| #[trigger] h2.objects.contains_key(x) <==> h2.list.contains(x) by {
        if h2.list.contains(x) {
            let j = choose|j: int| 0 <= j < h2.list.len() && h2.list[j] == x;
            if j > 0 {
                assert(h.list[j - 1] == x);
            }
        }
        if x == a {
            assert(h2.list[0] == a);
        } else if h.list.contains(x) {
            let j = choose|j: int| 0 <= j < h.list.len() && h.list[j] == x;
            assert(h2.list[j + 1] == x);
        }
    }
    assert(h2.list.no_duplicates()) by {
        assert forall|i: int, j: int| 0 <= i < h2.list.len() && 0 <= j < h2.list.len() && i
            != j implies h2.list[i] != h2.list[j] by {
            if i > 0 && j > 0 {
                assert(h.list[i - 1] != h.list[j - 1]);
            } else if i > 0 {
                assert(h.list.contains(h.list[i - 1]));
            } else {
                assert(h.list.contains(h.list[j - 1]));
            }
        }
    }
    assert(!h.gray.contains(a));
}

/// Between none and all of the listed objects are unscanned.
pub proof fn lemma_count_unscanned_bounds(objects: Map<usize, ObjectView>, list: Seq<usize>)
    ensures
        0 <= count_unscanned(objects, list) <= list.len(),
    decreases list.len(),
{
    if list.len() > 0 {
        lemma_count_unscanned_bounds(objects, list.drop_last());
    }
}

/// The number of unscanned objects depends only on which listed objects are black.
pub proof fn lemma_count_unscanned_same(
    o1: Map<usize, ObjectView>,
    o2: Map<usize, ObjectView>,
    list: Seq<usize>,
)
    requires
        forall|i: int|
            0 <= i < list.len() ==> (o1[list[i]].color == GcColor::Black) == (o2[list[i]].color
                == GcColor::Black),
    ensures
        count_unscanned(o1, list) == count_unscanned(o2, list),
    decreases list.len(),
{
    if list.len() > 0 {
        lemma_count_unscanned_same(o1, o2, list.drop_last());
    }
}

/// Coloring one listed, unscanned object black leaves one unscanned object less.
pub proof fn lemma_count_unscanned_blacken(
    objects: Map<usize, ObjectView>,
    list: Seq<usize>,
    a: usize,
    object: ObjectView,
)
    requires
        list.no_duplicates(),
        list.contains(a),
        objects[a].color != GcColor::Black,
        object.color == GcColor::Black,
    ensures
        count_unscanned(objects.insert(a, object), list) == count_unscanned(objects, list) - 1,
    decreases list.len(),
{
    let objects2 = objects.insert(a, object);
    let i = choose|i: int| 0 <= i < list.len() && list[i] == a;
    if list.last() == a {
        assert forall|j: int| 0 <= j < list.drop_last().len() implies (
        objects[list.drop_last()[j]].color == GcColor::Black) == (
        objects2[list.drop_last()[j]].color == GcColor::Black) by {
            assert(list[j] != list[list.len() - 1]);
        }
        lemma_count_unscanned_same(objects, objects2, list.drop_last());
    } else {
        assert(list.drop_last()[i] == a);
        lemma_count_unscanned_blacken(objects, list.drop_last(), a, object);
    }
}

/// Marking pointers leaves the remaining work as it is.
pub proof fn lemma_mark_all_work(h: HeapView, ptrs: Seq<usize>)
    requires
        h.wf(),
        h.is_marking(),
    ensures
        h.mark_all(ptrs).remaining_work() == h.remaining_work(),
    decreases ptrs.len(),
{
    if ptrs.len() > 0 {
        let h1 = h.mark_all(ptrs.drop_last());
        lemma_mark_all_work(h, ptrs.drop_last());
        lemma_mark_all_wf(h, ptrs.drop_last());
        lemma_mark_one_wf(h1, ptrs.last());
        lemma_count_unscanned_same(h1.objects, h1.mark_one(ptrs.last()).objects, h1.list);
    }
}

/// A marking step that may scan at least one object leaves less work.
pub proof fn lemma_mark_step_work(h: HeapView, graph: ObjectGraph, limit: nat)
    requires
        h.wf(),
        h.phase == GcPhase::Marking,
        limit >= 1,
    ensures
        0 <= h.mark_step(graph, limit).remaining_work() < h.remaining_work(),
    decreases limit,
{
    lemma_count_unscanned_bounds(h.objects, h.list);
    if h.gray.len() == 0 {
    } else {
        let a = h.gray.last();
        let object_ptr = (a + GcHeader::SIZE) as usize;
        let h1 = h.blacken_top();
        let h2 = h1.mark_all(graph.out_edges(object_ptr));
        lemma_blacken_top_wf(h);
        assert(h.gray.contains(a));
        assert(h.list.contains(a));
        lemma_count_unscanned_blacken(h.objects, h.list, a, h1.objects[a]);
        lemma_mark_all_wf(h1, graph.out_edges(object_ptr));
        lemma_mark_all_work(h1, graph.out_edges(object_ptr));
        lemma_count_unscanned_bounds(h2.objects, h2.list);
        if limit > 1 {
            lemma_mark_step_work(h2, graph, (limit - 1) as nat);
        }
    }
}

/// A sweeping step that may visit at least one object leaves less work.
pub proof fn lemma_sweep_step_work(h: HeapView, limit: nat)
    requires
        h.wf(),
        h.phase == GcPhase::Sweeping,
        limit >= 1,
    ensures
        0 <= h.sweep_step(limit).remaining_work() < h.remaining_work(),
    decreases limit,
{
    if h.cursor >= h.list.len() {
    } else {
        let h1 = h.sweep_one();
        lemma_sweep_one_wf(h);
        assert(h1.remaining_work() == h.remaining_work() - 1);
        if limit > 1 {
            lemma_sweep_step_work(h1, (limit - 1) as nat);
        } else {
            assert(h1.sweep_step(0) == h1);
        }
    }
}

/// Every step of a collection in progress leaves less work, so a cycle ends.
pub proof fn lemma_step_work(h: HeapView, graph: ObjectGraph)
    requires
        h.wf(),
        h.gc_in_progress(),
    ensures
        0 <= h.step(graph).remaining_work() < h.remaining_work(),
        h.remaining_work() <= 4 + 2 * h.list.len(),
{
    lemma_count_unscanned_bounds(h.objects, h.list);
    match h.phase {
        GcPhase::Idle => {},
        GcPhase::RootScanning => {},
        GcPhase::Marking => {
            lemma_mark_step_work(h, graph, DEFAULT_MARK_STEP_SIZE as nat);
        },
        GcPhase::WeakRefProcessing => {},
        GcPhase::Sweeping => {
            lemma_sweep_step_work(h, DEFAULT_SWEEP_STEP_SIZE as nat);
        },
    }
}

/// Only one number of steps leaves the heap idle and no fewer does.
pub proof fn lemma_idle_after_unique(h: HeapView, graph: ObjectGraph, n: nat, m: nat)
    requires
        h.idle_after(graph, n),
        h.idle_after(graph, m),
    ensures
        n == m,
{
    if n < m {
        assert(h.steps(graph, n).phase != GcPhase::Idle);
    } else if m < n {
        assert(h.steps(graph, m).phase != GcPhase::Idle);
    }
}

/// A number of steps that leaves the heap idle, and no fewer does, is the
/// number of steps that running the collection to its end takes.
pub proof fn lemma_steps_to_idle(h: HeapView, graph: ObjectGraph, n: nat)
    requires
        h.idle_after(graph, n),
    ensures
        h.steps_to_idle(graph) == n,
        h.finished(graph) == h.steps(graph, n),
{
    lemma_idle_after_unique(h, graph, n, h.steps_to_idle(graph));
}

/// Marking hands out no address.
pub proof fn lemma_mark_all_next_address(h: HeapView, ptrs: Seq<usize>)
    ensures
        h.mark_all(ptrs).next_address == h.next_address,
        h.mark_all(ptrs).phase == h.phase,
    decreases ptrs.len(),
{
    if ptrs.len() > 0 {
        lemma_mark_all_next_address(h, ptrs.drop_last());
    }
}

/// A marking step hands out no address.
pub proof fn lemma_mark_step_next_address(h: HeapView, graph: ObjectGraph, limit: nat)
    ensures
        h.mark_step(graph, limit).next_address == h.next_address,
    decreases limit,
{
    if limit > 0 && h.gray.len() > 0 {
        let object_ptr = (h.gray.last() + GcHeader::SIZE) as usize;
        lemma_mark_all_next_address(h.blacken_top(), graph.out_edges(object_ptr));
        lemma_mark_step_next_address(
            h.blacken_top().mark_all(graph.out_edges(object_ptr)),
            graph,
            (limit - 1) as nat,
        );
    }
}

/// A sweeping step hands out no address.
pub proof fn lemma_sweep_step_next_address(h: HeapView, limit: nat)
    ensures
        h.sweep_step(limit).next_address == h.next_address,
    decreases limit,
{
    if limit > 0 && h.cursor < h.list.len() {
        lemma_sweep_step_next_address(h.sweep_one(), (limit - 1) as nat);
    }
}

/// The collector hands out no address: whether a block can be had does not
/// change when a cycle is started or advanced.
pub proof fn lemma_collecting_keeps_next_address(h: HeapView, graph: ObjectGraph, n: nat)
    ensures
        h.step(graph).next_address == h.next_address,
        h.start(graph.roots).next_address == h.next_address,
        h.steps(graph, n).next_address == h.next_address,
        h.step_if_collecting(graph).next_address == h.next_address,
    decreases n,
{
    lemma_mark_step_next_address(h, graph, DEFAULT_MARK_STEP_SIZE as nat);
    lemma_sweep_step_next_address(h, DEFAULT_SWEEP_STEP_SIZE as nat);
    lemma_mark_all_next_address(
        HeapView { phase: GcPhase::RootScanning, bytes_freed: 0, objects_freed: 0, ..h },
        graph.roots,
    );
    if n > 0 {
        lemma_collecting_keeps_next_address(h, graph, (n - 1) as nat);
        let before = h.steps(graph, (n - 1) as nat);
        lemma_mark_step_next_address(before, graph, DEFAULT_MARK_STEP_SIZE as nat);
        lemma_sweep_step_next_address(before, DEFAULT_SWEEP_STEP_SIZE as nat);
    }
}

/// Outside the marking phase a step does not look at the embedder's pointers.
pub proof fn lemma_step_ignores_graph(h: HeapView, g1: ObjectGraph, g2: ObjectGraph)
    requires
        h.phase != GcPhase::Marking,
    ensures
        h.step(g1) == h.step(g2),
{
}

} // verus!
