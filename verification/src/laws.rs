//! What holds of every heap and of every collection cycle, proved over the
//! model of the heap.

use crate::gc_header::{GcColor, GcHeader, GcPhase};
use crate::heap_model::{
    lemma_allocate_wf, lemma_blacken_top_wf, lemma_mark_all_wf, lemma_mark_one_wf,
    lemma_start_wf, lemma_step_wf, lemma_step_work, lemma_sweep_one_wf, total_bytes, HeapView,
    ObjectGraph, DEFAULT_MARK_STEP_SIZE, DEFAULT_SWEEP_STEP_SIZE,
};
use vstd::prelude::*;

verus! {

impl ObjectGraph {
    /// Whether `path` leads from a root along strong pointers through live objects of `h`.
    pub open spec fn is_path(self, h: HeapView, path: Seq<usize>) -> bool {
        &&& path.len() > 0
        &&& self.roots.contains(path[0])
        &&& forall|i: int| 0 <= i < path.len() ==> h.manages(#[trigger] path[i])
        &&& forall|i: int|
            0 <= i < path.len() - 1 ==> self.out_edges(#[trigger] path[i]).contains(path[i + 1])
    }

    /// Whether the object body at `object_ptr` is reachable from a root.
    pub open spec fn reaches(self, h: HeapView, object_ptr: usize) -> bool {
        exists|path: Seq<usize>| #[trigger] self.is_path(h, path) && path.last() == object_ptr
    }
}

impl HeapView {
    /// Whether `self` comes from `before` by marking: the same objects, no color
    /// turned back to white, and black exactly where it was black before.
    pub open spec fn marked_from(self, before: HeapView) -> bool {
        &&& self.same_but_marks(before)
        &&& forall|a: usize| #[trigger]
            self.objects.contains_key(a) ==> {
                &&& before.objects[a].color != GcColor::White ==> self.objects[a].color
                    != GcColor::White
                &&& (before.objects[a].color == GcColor::Black) == (self.objects[a].color
                    == GcColor::Black)
            }
    }

    /// The invariant of marking: no root is white, and no black object holds a
    /// strong pointer to a white one.
    pub open spec fn tri_color(self, graph: ObjectGraph) -> bool {
        &&& forall|i: int|
            0 <= i < graph.roots.len() && self.manages(#[trigger] graph.roots[i])
                ==> self.color_of(graph.roots[i]) != GcColor::White
        &&& forall|o: usize, j: int|
            self.manages(o) && self.color_of(o) == GcColor::Black && 0 <= j < graph.out_edges(
                o,
            ).len() && self.manages(#[trigger] graph.out_edges(o)[j]) ==> self.color_of(
                graph.out_edges(o)[j],
            ) != GcColor::White
    }

    /// Whether the current cycle keeps the object with the header at `a`: it is
    /// live and not white, or the sweep cursor has passed it, or no cycle is running.
    pub open spec fn kept_by_cycle(self, a: usize) -> bool {
        &&& self.objects.contains_key(a)
        &&& {
            ||| self.phase == GcPhase::Idle
            ||| self.objects[a].color != GcColor::White
            ||| self.phase == GcPhase::Sweeping && exists|i: int|
                0 <= i < self.cursor && i < self.list.len() && #[trigger] self.list[i] == a
        }
    }

    /// Whether the heap is as a cycle without allocations during sweeping leaves
    /// it: all white when idle, and white behind the sweep cursor while sweeping.
    pub open spec fn white_behind(self) -> bool {
        &&& self.phase == GcPhase::Idle ==> self.all_white()
        &&& self.swept_white()
    }
}

/// Marking one pointer turns no color back and leaves the object at the pointer non-white.
pub proof fn lemma_mark_one_marks(h: HeapView, object_ptr: usize)
    requires
        h.wf(),
        h.is_marking(),
    ensures
        h.mark_one(object_ptr).marked_from(h),
        h.manages(object_ptr) ==> h.mark_one(object_ptr).color_of(object_ptr) != GcColor::White,
{
    lemma_mark_one_wf(h, object_ptr);
}

/// Marking a sequence of pointers turns no color back and leaves every live
/// object at one of the pointers non-white.
pub proof fn lemma_mark_all_marks(h: HeapView, ptrs: Seq<usize>)
    requires
        h.wf(),
        h.is_marking(),
    ensures
        h.mark_all(ptrs).marked_from(h),
        forall|j: int|
            0 <= j < ptrs.len() && h.manages(#[trigger] ptrs[j]) ==> h.mark_all(ptrs).color_of(
                ptrs[j],
            ) != GcColor::White,
    decreases ptrs.len(),
{
    if ptrs.len() > 0 {
        let h1 = h.mark_all(ptrs.drop_last());
        lemma_mark_all_marks(h, ptrs.drop_last());
        lemma_mark_all_wf(h, ptrs.drop_last());
        lemma_mark_one_marks(h1, ptrs.last());
        lemma_mark_one_wf(h1, ptrs.last());
        let h2 = h1.mark_one(ptrs.last());
        assert forall|j: int| 0 <= j < ptrs.len() && h.manages(#[trigger] ptrs[j]) implies h2.color_of(
            ptrs[j],
        ) != GcColor::White by {
            if j < ptrs.len() - 1 {
                assert(ptrs.drop_last()[j] == ptrs[j]);
            }
        }
    }
}

/// Scanning the top of the gray queue keeps the invariant of marking.
#[verifier::rlimit(40)]
pub proof fn lemma_scan_keeps_tri_color(h: HeapView, graph: ObjectGraph)
    requires
        h.wf(),
        h.phase == GcPhase::Marking,
        h.gray.len() > 0,
        h.tri_color(graph),
    ensures
        ({
            let object_ptr = (h.gray.last() + GcHeader::SIZE) as usize;
            let scanned = h.blacken_top().mark_all(graph.out_edges(object_ptr));
            &&& scanned.wf()
            &&& scanned.phase == GcPhase::Marking
            &&& scanned.tri_color(graph)
            &&& scanned.objects.dom() == h.objects.dom()
            &&& forall|a: usize| #[trigger]
                h.objects.contains_key(a) && h.objects[a].color != GcColor::White
                    ==> scanned.objects[a].color != GcColor::White
        }),
{
    let a = h.gray.last();
    let object_ptr = (a + GcHeader::SIZE) as usize;
    let edges = graph.out_edges(object_ptr);
    let h1 = h.blacken_top();
    let h2 = h1.mark_all(edges);
    lemma_blacken_top_wf(h);
    lemma_mark_all_wf(h1, edges);
    lemma_mark_all_marks(h1, edges);
    assert(h.gray.contains(a));
    assert forall|i: int|
        0 <= i < graph.roots.len() && h2.manages(#[trigger] graph.roots[i]) implies h2.color_of(
        graph.roots[i],
    ) != GcColor::White by {
        assert(h.manages(graph.roots[i]));
        assert(h1.manages(graph.roots[i]));
    }
    assert forall|o: usize, j: int|
        h2.manages(o) && h2.color_of(o) == GcColor::Black && 0 <= j < graph.out_edges(o).len()
            && h2.manages(#[trigger] graph.out_edges(o)[j]) implies h2.color_of(
        graph.out_edges(o)[j],
    ) != GcColor::White by {
        let target = graph.out_edges(o)[j];
        assert(h1.manages(o) && h.manages(o));
        assert(h1.manages(target) && h.manages(target));
        if o == object_ptr {
        } else {
            assert(h1.color_of(o) == GcColor::Black);
            assert(h.color_of(o) == GcColor::Black);
            assert(h.color_of(target) != GcColor::White);
            assert(h1.color_of(target) != GcColor::White);
        }
    }
}

/// A marking step keeps the invariant of marking, frees nothing and turns no
/// color back to white; the gray queue is empty when it leaves the marking phase.
pub proof fn lemma_mark_step_tri_color(h: HeapView, graph: ObjectGraph, limit: nat)
    requires
        h.wf(),
        h.phase == GcPhase::Marking,
        h.tri_color(graph),
    ensures
        ({
            let after = h.mark_step(graph, limit);
            &&& after.wf()
            &&& after.tri_color(graph)
            &&& after.objects.dom() == h.objects.dom()
            &&& after.phase == GcPhase::Marking || (after.phase == GcPhase::WeakRefProcessing
                && after.gray.len() == 0)
            &&& forall|a: usize| #[trigger]
                h.objects.contains_key(a) && h.objects[a].color != GcColor::White
                    ==> after.objects[a].color != GcColor::White
        }),
    decreases limit,
{
    if limit == 0 {
    } else if h.gray.len() == 0 {
        let after = h.mark_step(graph, limit);
        assert forall|o: usize| h.manages(o) implies after.manages(o) && after.color_of(o)
            == h.color_of(o) by {}
    } else {
        let object_ptr = (h.gray.last() + GcHeader::SIZE) as usize;
        let scanned = h.blacken_top().mark_all(graph.out_edges(object_ptr));
        lemma_scan_keeps_tri_color(h, graph);
        lemma_mark_step_tri_color(scanned, graph, (limit - 1) as nat);
    }
}

/// Once the gray queue is empty under the invariant of marking, every object
/// on a path from a root is black.
pub proof fn lemma_marked_closure(h: HeapView, graph: ObjectGraph, path: Seq<usize>, i: int)
    requires
        h.wf(),
        h.tri_color(graph),
        h.gray.len() == 0,
        graph.is_path(h, path),
        0 <= i < path.len(),
    ensures
        h.color_of(path[i]) == GcColor::Black,
    decreases i,
{
    let a = (path[i] - GcHeader::SIZE) as usize;
    assert(h.manages(path[i]));
    assert(!h.gray.contains(a));
    if i == 0 {
        let k = choose|k: int| 0 <= k < graph.roots.len() && graph.roots[k] == path[0];
        assert(h.manages(graph.roots[k]));
    } else {
        lemma_marked_closure(h, graph, path, i - 1);
        let edges = graph.out_edges(path[i - 1]);
        assert(edges.contains(path[i - 1 + 1]));
        let j = choose|j: int| 0 <= j < edges.len() && edges[j] == path[i];
        assert(h.manages(path[i - 1]));
        assert(h.manages(graph.out_edges(path[i - 1])[j]));
    }
}

/// Visiting one object with the sweep cursor frees no object that the cycle keeps.
pub proof fn lemma_sweep_one_keeps(h: HeapView, a: usize)
    requires
        h.wf(),
        h.phase == GcPhase::Sweeping,
        h.cursor < h.list.len(),
        h.kept_by_cycle(a),
    ensures
        h.sweep_one().kept_by_cycle(a),
{
    let h2 = h.sweep_one();
    let c = h.cursor;
    let at = h.list[c];
    lemma_sweep_one_wf(h);
    assert(h.list.contains(a));
    let j = choose|j: int| 0 <= j < h.list.len() && h.list[j] == a;
    if exists|i: int| 0 <= i < h.cursor && i < h.list.len() && #[trigger] h.list[i] == a {
        let i = choose|i: int| 0 <= i < h.cursor && i < h.list.len() && #[trigger] h.list[i] == a;
        assert(h2.list[i] == a);
        assert(at != a);
    } else {
        assert(h.objects[a].color != GcColor::White);
        if a == at {
            assert(h2.list[c] == a);
        }
    }
}

/// A sweeping step frees no object that the cycle keeps.
pub proof fn lemma_sweep_step_keeps(h: HeapView, limit: nat, a: usize)
    requires
        h.wf(),
        h.phase == GcPhase::Sweeping,
        h.kept_by_cycle(a),
    ensures
        h.sweep_step(limit).kept_by_cycle(a),
    decreases limit,
{
    if limit == 0 {
    } else if h.cursor >= h.list.len() {
    } else {
        lemma_sweep_one_wf(h);
        lemma_sweep_one_keeps(h, a);
        lemma_sweep_step_keeps(h.sweep_one(), (limit - 1) as nat, a);
    }
}

/// A marking step frees nothing and leaves non-white what was not white.
pub proof fn lemma_mark_step_keeps(h: HeapView, graph: ObjectGraph, limit: nat, a: usize)
    requires
        h.wf(),
        h.phase == GcPhase::Marking,
        h.kept_by_cycle(a),
    ensures
        h.mark_step(graph, limit).kept_by_cycle(a),
    decreases limit,
{
    if limit == 0 {
    } else if h.gray.len() == 0 {
    } else {
        let object_ptr = (h.gray.last() + GcHeader::SIZE) as usize;
        let h1 = h.blacken_top();
        let scanned = h1.mark_all(graph.out_edges(object_ptr));
        lemma_blacken_top_wf(h);
        lemma_mark_all_wf(h1, graph.out_edges(object_ptr));
        lemma_mark_all_marks(h1, graph.out_edges(object_ptr));
        lemma_mark_step_keeps(scanned, graph, (limit - 1) as nat, a);
    }
}

/// An allocation leaves kept what the cycle keeps, and the cycle keeps the new object.
pub proof fn lemma_allocate_keeps(h: HeapView, size: usize, context: usize, a: usize)
    requires
        h.wf(),
        h.can_alloc(size),
        context % 8 == 0,
        h.kept_by_cycle(a) || a == h.next_address,
    ensures
        h.allocate(size, context).kept_by_cycle(a),
{
    let h2 = h.allocate(size, context);
    lemma_allocate_wf(h, size, context);
    if a != h.next_address {
        if h.phase == GcPhase::Sweeping && h.objects[a].color == GcColor::White {
            let i = choose|i: int|
                0 <= i < h.cursor && i < h.list.len() && #[trigger] h.list[i] == a;
            assert(h2.list[i + 1] == a);
        }
    }
}

/// A step of the collector frees no object that the cycle keeps.
pub proof fn lemma_step_keeps(h: HeapView, graph: ObjectGraph, a: usize)
    requires
        h.wf(),
        h.kept_by_cycle(a),
    ensures
        h.step(graph).kept_by_cycle(a),
{
    match h.phase {
        GcPhase::Idle => {},
        GcPhase::RootScanning => {},
        GcPhase::Marking => {
            lemma_mark_step_keeps(h, graph, DEFAULT_MARK_STEP_SIZE as nat, a);
        },
        GcPhase::WeakRefProcessing => {},
        GcPhase::Sweeping => {
            lemma_sweep_step_keeps(h, DEFAULT_SWEEP_STEP_SIZE as nat, a);
        },
    }
}

/// A sweeping step leaves white what is behind the cursor, and all objects
/// white when it ends the cycle.
pub proof fn lemma_sweep_step_white_behind(h: HeapView, limit: nat)
    requires
        h.wf(),
        h.phase == GcPhase::Sweeping,
        h.white_behind(),
    ensures
        h.sweep_step(limit).white_behind(),
    decreases limit,
{
    if limit == 0 {
    } else if h.cursor >= h.list.len() {
        let done = h.finish_sweep();
        assert forall|a: usize| #[trigger] done.objects.contains_key(a) implies done.objects[a].color
            == GcColor::White by {
            assert(h.list.contains(a));
            let j = choose|j: int| 0 <= j < h.list.len() && h.list[j] == a;
            assert(h.objects[h.list[j]].color == GcColor::White);
        }
    } else {
        let h2 = h.sweep_one();
        let c = h.cursor;
        lemma_sweep_one_wf(h);
        assert forall|i: int| 0 <= i < h2.cursor && i < h2.list.len() implies (
        #[trigger] h2.objects[h2.list[i]]).color == GcColor::White by {
            if i < c {
                assert(h2.list[i] == h.list[i]);
                assert(h.list[i] != h.list[c]);
                assert(h.objects[h.list[i]].color == GcColor::White);
            }
        }
        lemma_sweep_step_white_behind(h2, (limit - 1) as nat);
    }
}

/// A step of the collector leaves the heap as a cycle without allocations
/// during sweeping leaves it.
pub proof fn lemma_step_white_behind(h: HeapView, graph: ObjectGraph)
    requires
        h.wf(),
        h.white_behind(),
    ensures
        h.step(graph).white_behind(),
{
    lemma_step_wf(h, graph);
    match h.phase {
        GcPhase::Sweeping => {
            lemma_sweep_step_white_behind(h, DEFAULT_SWEEP_STEP_SIZE as nat);
        },
        _ => {},
    }
}

/// A marking step frees nothing, adds nothing and changes neither size nor owner.
pub proof fn lemma_mark_step_moves_nothing(h: HeapView, graph: ObjectGraph, limit: nat)
    requires
        h.wf(),
        h.phase == GcPhase::Marking,
    ensures
        h.mark_step(graph, limit).same_but_marks(HeapView {
            phase: h.mark_step(graph, limit).phase,
            ..h
        }),
    decreases limit,
{
    if limit == 0 {
    } else if h.gray.len() == 0 {
    } else {
        let object_ptr = (h.gray.last() + GcHeader::SIZE) as usize;
        let h1 = h.blacken_top();
        let scanned = h1.mark_all(graph.out_edges(object_ptr));
        lemma_blacken_top_wf(h);
        lemma_mark_all_wf(h1, graph.out_edges(object_ptr));
        lemma_mark_step_moves_nothing(scanned, graph, (limit - 1) as nat);
    }
}

/// A sweeping step adds no object and changes neither size nor owner of those it leaves.
pub proof fn lemma_sweep_step_moves_nothing(h: HeapView, limit: nat)
    requires
        h.wf(),
        h.phase == GcPhase::Sweeping,
    ensures
        forall|a: usize| #[trigger]
            h.sweep_step(limit).objects.contains_key(a) ==> {
                &&& h.objects.contains_key(a)
                &&& h.sweep_step(limit).objects[a].alloc_size == h.objects[a].alloc_size
                &&& h.sweep_step(limit).objects[a].context == h.objects[a].context
            },
    decreases limit,
{
    if limit == 0 {
    } else if h.cursor >= h.list.len() {
    } else {
        lemma_sweep_one_wf(h);
        lemma_sweep_step_moves_nothing(h.sweep_one(), (limit - 1) as nat);
    }
}

/// A step of the collector adds no object and changes neither size nor owner
/// of those it leaves.
pub proof fn lemma_step_moves_nothing(h: HeapView, graph: ObjectGraph)
    requires
        h.wf(),
    ensures
        forall|a: usize| #[trigger]
            h.step(graph).objects.contains_key(a) ==> {
                &&& h.objects.contains_key(a)
                &&& h.step(graph).objects[a].alloc_size == h.objects[a].alloc_size
                &&& h.step(graph).objects[a].context == h.objects[a].context
            },
{
    match h.phase {
        GcPhase::Marking => {
            lemma_mark_step_moves_nothing(h, graph, DEFAULT_MARK_STEP_SIZE as nat);
        },
        GcPhase::Sweeping => {
            lemma_sweep_step_moves_nothing(h, DEFAULT_SWEEP_STEP_SIZE as nat);
        },
        _ => {},
    }
}

/// The write barrier keeps the invariant of marking: when a strong pointer to
/// `target` is stored into the object at `holder` while objects are being
/// marked, and the barrier is called for `target`, then still no root is white
/// and no black object holds a strong pointer to a white one. Here `graph`
/// holds the pointers before the store and `stored` those after it.
pub proof fn law_write_barrier_keeps_tri_color(
    h: HeapView,
    graph: ObjectGraph,
    stored: ObjectGraph,
    holder: usize,
    target: usize,
)
    requires
        h.wf(),
        h.is_marking(),
        h.tri_color(graph),
        stored.roots == graph.roots,
        forall|o: usize| o != holder ==> #[trigger] stored.out_edges(o) == graph.out_edges(o),
        forall|j: int|
            0 <= j < stored.out_edges(holder).len() ==> (#[trigger] stored.out_edges(holder)[j])
                == target || graph.out_edges(holder).contains(stored.out_edges(holder)[j]),
    ensures
        h.write_barrier(target).wf(),
        h.write_barrier(target).tri_color(stored),
{
    let h2 = h.write_barrier(target);
    lemma_mark_one_wf(h, target);
    lemma_mark_one_marks(h, target);
    assert forall|i: int|
        0 <= i < stored.roots.len() && h2.manages(#[trigger] stored.roots[i]) implies h2.color_of(
        stored.roots[i],
    ) != GcColor::White by {
        assert(h.manages(graph.roots[i]));
    }
    assert forall|o: usize, j: int|
        h2.manages(o) && h2.color_of(o) == GcColor::Black && 0 <= j < stored.out_edges(o).len()
            && h2.manages(#[trigger] stored.out_edges(o)[j]) implies h2.color_of(
        stored.out_edges(o)[j],
    ) != GcColor::White by {
        let e = stored.out_edges(o)[j];
        assert(h.manages(o) && h.manages(e));
        assert(h.color_of(o) == GcColor::Black);
        if o != holder {
            assert(stored.out_edges(o) == graph.out_edges(o));
            assert(h.color_of(graph.out_edges(o)[j]) != GcColor::White);
        } else if e != target {
            let k = choose|k: int|
                0 <= k < graph.out_edges(holder).len() && graph.out_edges(holder)[k] == e;
            assert(h.manages(graph.out_edges(o)[k]));
            assert(h.color_of(graph.out_edges(o)[k]) != GcColor::White);
        }
    }
}

/// An allocation keeps the invariant of marking, as long as the new object
/// holds no pointer yet: pointers are stored into it with the write barrier.
pub proof fn law_allocate_keeps_tri_color(
    h: HeapView,
    graph: ObjectGraph,
    size: usize,
    context: usize,
)
    requires
        h.wf(),
        h.gc_in_progress(),
        h.can_alloc(size),
        context % 8 == 0,
        h.tri_color(graph),
        graph.out_edges((h.next_address + GcHeader::SIZE) as usize).len() == 0,
    ensures
        h.allocate(size, context).wf(),
        h.allocate(size, context).tri_color(graph),
{
    let h2 = h.allocate(size, context);
    let a = h.next_address as usize;
    lemma_allocate_wf(h, size, context);
    assert forall|i: int|
        0 <= i < graph.roots.len() && h2.manages(#[trigger] graph.roots[i]) implies h2.color_of(
        graph.roots[i],
    ) != GcColor::White by {
        if (graph.roots[i] - GcHeader::SIZE) as usize != a {
            assert(h.manages(graph.roots[i]));
        }
    }
    assert forall|o: usize, j: int|
        h2.manages(o) && h2.color_of(o) == GcColor::Black && 0 <= j < graph.out_edges(o).len()
            && h2.manages(#[trigger] graph.out_edges(o)[j]) implies h2.color_of(
        graph.out_edges(o)[j],
    ) != GcColor::White by {
        let e = graph.out_edges(o)[j];
        assert(h.manages(o));
        if (e - GcHeader::SIZE) as usize != a {
            assert(h.manages(e));
        }
    }
}

/// What is reachable when marking is complete survives the cycle: if the
/// invariant of marking holds when the gray queue is found empty, every
/// object that is reachable from a root then is black, and the rest of the
/// cycle frees none of them. This holds whatever the embedder has stored and
/// allocated while the objects were being marked, as long as every store went
/// through the write barrier.
pub proof fn law_marked_objects_survive(h: HeapView, graph: ObjectGraph, n: nat, object_ptr: usize)
    requires
        h.wf(),
        h.phase == GcPhase::WeakRefProcessing,
        h.tri_color(graph),
        graph.reaches(h, object_ptr),
    ensures
        h.color_of(object_ptr) == GcColor::Black,
        h.steps(graph, n).manages(object_ptr),
{
    let path = choose|path: Seq<usize>| #[trigger]
        graph.is_path(h, path) && path.last() == object_ptr;
    lemma_marked_closure(h, graph, path, path.len() - 1);
    assert(h.manages(path[path.len() - 1]));
    lemma_steps_keep(h, graph, n, (object_ptr - GcHeader::SIZE) as usize);
}

/// Allocations on a heap that is not collecting keep the counters exact: the
/// bytes counted as allocated are the sum of the sizes of the objects on the
/// list of all objects, headers included, and the objects counted are the
/// length of that list. The objects that were there stay, and the new
/// objects are white.
pub proof fn law_allocations_are_counted(h: HeapView, requests: Seq<(usize, usize)>)
    requires
        h.wf(),
        !h.gc_in_progress(),
        forall|i: int| 0 <= i < requests.len() ==> (#[trigger] requests[i]).1 % 8 == 0,
    ensures
        h.allocate_all(requests).wf(),
        !h.allocate_all(requests).gc_in_progress(),
        h.allocate_all(requests).bytes_allocated == total_bytes(
            h.allocate_all(requests).objects,
            h.allocate_all(requests).list,
        ),
        h.allocate_all(requests).num_objects == h.allocate_all(requests).list.len(),
        h.all_white() ==> h.allocate_all(requests).all_white(),
        forall|a: usize| #[trigger]
            h.objects.contains_key(a) ==> h.allocate_all(requests).objects.contains_key(a),
    decreases requests.len(),
{
    if requests.len() > 0 {
        law_allocations_are_counted(h, requests.drop_last());
        let served = h.allocate_all(requests.drop_last());
        if served.can_alloc(requests.last().0) {
            lemma_allocate_wf(served, requests.last().0, requests.last().1);
        }
    }
}

/// However far a collection is run, the heap stays as a cycle without
/// allocations during sweeping leaves it.
pub proof fn lemma_steps_white_behind(h: HeapView, graph: ObjectGraph, n: nat)
    requires
        h.wf(),
        h.white_behind(),
    ensures
        h.steps(graph, n).wf(),
        h.steps(graph, n).white_behind(),
    decreases n,
{
    if n > 0 {
        lemma_steps_white_behind(h, graph, (n - 1) as nat);
        lemma_step_wf(h.steps(graph, (n - 1) as nat), graph);
        lemma_step_white_behind(h.steps(graph, (n - 1) as nat), graph);
    }
}

/// After a cycle that was started on an idle heap and run to its end, every
/// surviving object is white and is on the list of all objects.
pub proof fn law_survivors_are_white(h: HeapView, graph: ObjectGraph, n: nat)
    requires
        h.wf(),
        !h.gc_in_progress(),
        h.start(graph.roots).steps(graph, n).phase == GcPhase::Idle,
    ensures
        h.start(graph.roots).steps(graph, n).all_white(),
        forall|a: usize| #[trigger]
            h.start(graph.roots).steps(graph, n).objects.contains_key(a) ==> h.start(
                graph.roots,
            ).steps(graph, n).list.contains(a),
{
    lemma_start_wf(h, graph.roots);
    lemma_steps_white_behind(h.start(graph.roots), graph, n);
}

/// The same for a cycle that is picked up at any point: if the objects behind
/// the sweep cursor are white, every object is white once the heap is idle.
/// An allocation during sweeping puts a black object behind the cursor; after
/// it this does not hold.
pub proof fn law_finish_leaves_white(h: HeapView, graph: ObjectGraph, n: nat)
    requires
        h.wf(),
        h.gc_in_progress(),
        h.swept_white(),
        h.steps(graph, n).phase == GcPhase::Idle,
    ensures
        h.steps(graph, n).all_white(),
        forall|a: usize| #[trigger]
            h.steps(graph, n).objects.contains_key(a) ==> h.steps(graph, n).list.contains(a),
{
    lemma_steps_white_behind(h, graph, n);
}

/// However far a collection is run, it frees no object that the cycle keeps.
pub proof fn lemma_steps_keep(h: HeapView, graph: ObjectGraph, n: nat, a: usize)
    requires
        h.wf(),
        h.kept_by_cycle(a),
    ensures
        h.steps(graph, n).wf(),
        h.steps(graph, n).kept_by_cycle(a),
    decreases n,
{
    if n > 0 {
        lemma_steps_keep(h, graph, (n - 1) as nat, a);
        lemma_step_wf(h.steps(graph, (n - 1) as nat), graph);
        lemma_step_keeps(h.steps(graph, (n - 1) as nat), graph, a);
    }
}

/// An object that is allocated while a collection is in progress is black, and
/// the collection does not free it, however far it is run and whatever the
/// embedder points to.
pub proof fn law_allocated_while_collecting_is_kept(
    h: HeapView,
    size: usize,
    context: usize,
    graph: ObjectGraph,
    n: nat,
)
    requires
        h.wf(),
        h.gc_in_progress(),
        h.can_alloc(size),
        context % 8 == 0,
    ensures
        h.allocate(size, context).objects[h.next_address as usize].color == GcColor::Black,
        h.allocate(size, context).steps(graph, n).objects.contains_key(h.next_address as usize),
{
    lemma_allocate_wf(h, size, context);
    lemma_steps_keep(h.allocate(size, context), graph, n, h.next_address as usize);
}

/// Whether a cycle on `start`, under way in `h`, keeps what was reachable at
/// its start: while marking, the invariant of marking holds and no object has
/// been freed; afterwards the cycle keeps every object that was reachable.
pub open spec fn keeps_reachable(h: HeapView, start: HeapView, graph: ObjectGraph) -> bool {
    &&& h.phase != GcPhase::RootScanning
    &&& h.phase == GcPhase::Marking ==> h.tri_color(graph) && h.objects.dom()
        == start.objects.dom()
    &&& h.phase != GcPhase::Marking ==> forall|p: usize| #[trigger]
        graph.reaches(start, p) ==> h.kept_by_cycle((p - GcHeader::SIZE) as usize)
}

/// A step of the collector keeps what was reachable at the start of the cycle.
pub proof fn lemma_step_keeps_reachable(h: HeapView, start: HeapView, graph: ObjectGraph)
    requires
        h.wf(),
        keeps_reachable(h, start, graph),
    ensures
        h.step(graph).wf(),
        keeps_reachable(h.step(graph), start, graph),
{
    let after = h.step(graph);
    lemma_step_wf(h, graph);
    if h.phase == GcPhase::Marking {
        lemma_mark_step_tri_color(h, graph, DEFAULT_MARK_STEP_SIZE as nat);
        if after.phase != GcPhase::Marking {
            assert forall|p: usize| #[trigger] graph.reaches(start, p) implies after.kept_by_cycle(
                (p - GcHeader::SIZE) as usize,
            ) by {
                let path = choose|path: Seq<usize>| #[trigger]
                    graph.is_path(start, path) && path.last() == p;
                assert forall|i: int| 0 <= i < path.len() implies after.manages(
                    #[trigger] path[i],
                ) by {
                    assert(start.manages(path[i]));
                }
                assert(graph.is_path(after, path));
                lemma_marked_closure(after, graph, path, path.len() - 1);
            }
        }
    } else {
        assert forall|p: usize| #[trigger] graph.reaches(start, p) implies after.kept_by_cycle(
            (p - GcHeader::SIZE) as usize,
        ) by {
            lemma_step_keeps(h, graph, (p - GcHeader::SIZE) as usize);
        }
    }
}

/// However far a cycle is run, it keeps what was reachable at its start.
pub proof fn lemma_steps_keep_reachable(
    h: HeapView,
    start: HeapView,
    graph: ObjectGraph,
    n: nat,
)
    requires
        h.wf(),
        keeps_reachable(h, start, graph),
    ensures
        h.steps(graph, n).wf(),
        keeps_reachable(h.steps(graph, n), start, graph),
    decreases n,
{
    if n > 0 {
        lemma_steps_keep_reachable(h, start, graph, (n - 1) as nat);
        lemma_step_keeps_reachable(h.steps(graph, (n - 1) as nat), start, graph);
    }
}

/// An object that is reachable from a root when a cycle is started on an idle
/// heap whose objects are all white survives the cycle, as long as the
/// embedder's pointers stay as they are.
#[verifier::rlimit(40)]
pub proof fn law_reachable_objects_survive(
    h: HeapView,
    graph: ObjectGraph,
    n: nat,
    object_ptr: usize,
)
    requires
        h.wf(),
        !h.gc_in_progress(),
        h.all_white(),
        graph.reaches(h, object_ptr),
        h.start(graph.roots).steps(graph, n).phase == GcPhase::Idle,
    ensures
        h.start(graph.roots).steps(graph, n).manages(object_ptr),
{
    let scanning = HeapView {
        phase: GcPhase::RootScanning,
        bytes_freed: 0,
        objects_freed: 0,
        ..h
    };
    let started = h.start(graph.roots);
    lemma_start_wf(h, graph.roots);
    lemma_mark_all_wf(scanning, graph.roots);
    lemma_mark_all_marks(scanning, graph.roots);
    assert(started.tri_color(graph)) by {
        assert forall|i: int|
            0 <= i < graph.roots.len() && started.manages(
                #[trigger] graph.roots[i],
            ) implies started.color_of(graph.roots[i]) != GcColor::White by {
            assert(scanning.manages(graph.roots[i]));
        }
        assert forall|o: usize| started.manages(o) implies started.color_of(o)
            != GcColor::Black by {
            assert(scanning.manages(o));
            assert(h.objects.contains_key((o - GcHeader::SIZE) as usize));
        }
    }
    assert(started.objects.dom() == h.objects.dom());
    lemma_steps_keep_reachable(started, h, graph, n);
    let path = choose|path: Seq<usize>| #[trigger]
        graph.is_path(h, path) && path.last() == object_ptr;
    assert(h.manages(path[path.len() - 1]));
}

/// One step and then `n` more are `n + 1` steps.
pub proof fn lemma_steps_shift(h: HeapView, graph: ObjectGraph, n: nat)
    ensures
        h.steps(graph, n + 1) == h.step(graph).steps(graph, n),
    decreases n,
{
    if n == 0 {
        assert(h.steps(graph, 1) == h.steps(graph, 0).step(graph));
    } else {
        lemma_steps_shift(h, graph, (n - 1) as nat);
        assert(h.steps(graph, n + 1) == h.steps(graph, n).step(graph));
    }
}

/// Every collection ends: some number of steps leaves the heap idle, and
/// running the collection to its end takes the least such number.
pub proof fn law_cycle_ends(h: HeapView, graph: ObjectGraph)
    requires
        h.wf(),
    ensures
        h.idle_after(graph, h.steps_to_idle(graph)),
        h.finished(graph).wf(),
        h.finished(graph).phase == GcPhase::Idle,
    decreases h.remaining_work(),
{
    let after = h.step(graph);
    lemma_step_wf(h, graph);
    assert(h.steps(graph, 1) == h.steps(graph, 0).step(graph));
    if after.phase == GcPhase::Idle {
        assert(h.idle_after(graph, 1));
    } else {
        lemma_step_work(h, graph);
        law_cycle_ends(after, graph);
        let m = after.steps_to_idle(graph);
        lemma_steps_shift(h, graph, m);
        assert forall|k: nat| 1 <= k < m + 1 implies (#[trigger] h.steps(graph, k)).phase
            != GcPhase::Idle by {
            if k > 1 {
                lemma_steps_shift(h, graph, (k - 1) as nat);
                assert(after.steps(graph, (k - 1) as nat).phase != GcPhase::Idle);
            }
        }
        assert(h.idle_after(graph, m + 1));
    }
    law_collection_moves_nothing(h, graph, h.steps_to_idle(graph));
}

impl HeapView {
    /// Whether the object with the header at `a` was reachable from a root of
    /// `graph` in the heap `start`.
    pub open spec fn was_reachable(start: HeapView, graph: ObjectGraph, a: usize) -> bool {
        graph.reaches(start, (a + GcHeader::SIZE) as usize)
    }

    /// Whether the cycle on `start`, under way in `self`, has marked and kept
    /// only what was reachable: while marking, every object that is not white
    /// was reachable; while sweeping, so was every object that is not white or
    /// that the cursor has passed; and when the heap is idle again, so was every object.
    pub open spec fn keeps_only_reachable(self, start: HeapView, graph: ObjectGraph) -> bool {
        &&& self.phase != GcPhase::RootScanning
        &&& forall|a: usize| #[trigger]
            self.objects.contains_key(a) ==> start.objects.contains_key(a)
        &&& self.phase != GcPhase::Idle ==> forall|a: usize| #[trigger]
            self.objects.contains_key(a) && self.objects[a].color != GcColor::White
                ==> HeapView::was_reachable(start, graph, a)
        &&& self.phase == GcPhase::Sweeping ==> forall|i: int|
            0 <= i < self.cursor && i < self.list.len() ==> HeapView::was_reachable(
                start,
                graph,
                #[trigger] self.list[i],
            )
        &&& self.phase == GcPhase::Idle ==> forall|a: usize| #[trigger]
            self.objects.contains_key(a) ==> HeapView::was_reachable(start, graph, a)
    }
}

/// What a reachable object points to is reachable.
pub proof fn lemma_reach_step(start: HeapView, graph: ObjectGraph, from: usize, to: usize)
    requires
        graph.reaches(start, from),
        graph.out_edges(from).contains(to),
        start.manages(to),
    ensures
        graph.reaches(start, to),
{
    let path = choose|path: Seq<usize>| #[trigger]
        graph.is_path(start, path) && path.last() == from;
    let longer = path.push(to);
    assert forall|i: int| 0 <= i < longer.len() implies start.manages(#[trigger] longer[i]) by {
        if i < path.len() {
            assert(longer[i] == path[i]);
        }
    }
    assert forall|i: int| 0 <= i < longer.len() - 1 implies graph.out_edges(
        #[trigger] longer[i],
    ).contains(longer[i + 1]) by {
        if i < path.len() - 1 {
            assert(longer[i] == path[i]);
            assert(longer[i + 1] == path[i + 1]);
        } else {
            assert(longer[i] == path[path.len() - 1]);
        }
    }
    assert(longer[0] == path[0]);
    assert(graph.is_path(start, longer));
    assert(longer.last() == to);
}

/// Marking pointers to reachable objects marks only what was reachable.
pub proof fn lemma_mark_all_only_reachable(
    h: HeapView,
    start: HeapView,
    graph: ObjectGraph,
    ptrs: Seq<usize>,
)
    requires
        h.wf(),
        h.is_marking(),
        forall|a: usize| #[trigger] h.objects.contains_key(a) ==> start.objects.contains_key(a),
        forall|a: usize| #[trigger]
            h.objects.contains_key(a) && h.objects[a].color != GcColor::White
                ==> HeapView::was_reachable(start, graph, a),
        forall|j: int|
            0 <= j < ptrs.len() && h.manages(#[trigger] ptrs[j]) ==> graph.reaches(start, ptrs[j]),
    ensures
        forall|a: usize| #[trigger]
            h.mark_all(ptrs).objects.contains_key(a) && h.mark_all(ptrs).objects[a].color
                != GcColor::White ==> HeapView::was_reachable(start, graph, a),
    decreases ptrs.len(),
{
    if ptrs.len() > 0 {
        let h1 = h.mark_all(ptrs.drop_last());
        assert forall|j: int|
            0 <= j < ptrs.drop_last().len() && h.manages(
                #[trigger] ptrs.drop_last()[j],
            ) implies graph.reaches(start, ptrs.drop_last()[j]) by {
            assert(ptrs.drop_last()[j] == ptrs[j]);
        }
        lemma_mark_all_only_reachable(h, start, graph, ptrs.drop_last());
        lemma_mark_all_wf(h, ptrs.drop_last());
        lemma_mark_one_wf(h1, ptrs.last());
        let h2 = h1.mark_one(ptrs.last());
        assert forall|a: usize| #[trigger]
            h2.objects.contains_key(a) && h2.objects[a].color
                != GcColor::White implies HeapView::was_reachable(start, graph, a) by {
            if h1.objects[a].color == GcColor::White {
                assert(h1.manages(ptrs.last()));
                assert(h.manages(ptrs[ptrs.len() - 1]));
                assert((a + GcHeader::SIZE) as usize == ptrs.last());
            }
        }
    }
}

/// A marking step marks only what was reachable.
pub proof fn lemma_mark_step_only_reachable(
    h: HeapView,
    start: HeapView,
    graph: ObjectGraph,
    limit: nat,
)
    requires
        h.wf(),
        start.wf(),
        h.phase == GcPhase::Marking,
        h.keeps_only_reachable(start, graph),
    ensures
        h.mark_step(graph, limit).keeps_only_reachable(start, graph),
    decreases limit,
{
    if limit == 0 {
    } else if h.gray.len() == 0 {
    } else {
        let a = h.gray.last();
        let object_ptr = (a + GcHeader::SIZE) as usize;
        let edges = graph.out_edges(object_ptr);
        let h1 = h.blacken_top();
        let h2 = h1.mark_all(edges);
        lemma_blacken_top_wf(h);
        lemma_mark_all_wf(h1, edges);
        assert(h.gray.contains(a));
        assert(HeapView::was_reachable(start, graph, a));
        assert forall|j: int| 0 <= j < edges.len() && h1.manages(#[trigger] edges[j]) implies graph.reaches(
            start,
            edges[j],
        ) by {
            assert(start.objects.contains_key((edges[j] - GcHeader::SIZE) as usize));
            lemma_reach_step(start, graph, object_ptr, edges[j]);
        }
        lemma_mark_all_only_reachable(h1, start, graph, edges);
        lemma_mark_step_only_reachable(h2, start, graph, (limit - 1) as nat);
    }
}

/// A sweeping step keeps only what was reachable.
pub proof fn lemma_sweep_step_only_reachable(
    h: HeapView,
    start: HeapView,
    graph: ObjectGraph,
    limit: nat,
)
    requires
        h.wf(),
        h.phase == GcPhase::Sweeping,
        h.keeps_only_reachable(start, graph),
    ensures
        h.sweep_step(limit).keeps_only_reachable(start, graph),
    decreases limit,
{
    if limit == 0 {
    } else if h.cursor >= h.list.len() {
        let done = h.finish_sweep();
        assert forall|a: usize| #[trigger]
            done.objects.contains_key(a) implies HeapView::was_reachable(start, graph, a) by {
            assert(h.list.contains(a));
            let i = choose|i: int| 0 <= i < h.list.len() && h.list[i] == a;
            assert(HeapView::was_reachable(start, graph, h.list[i]));
        }
    } else {
        let h2 = h.sweep_one();
        let c = h.cursor;
        lemma_sweep_one_wf(h);
        assert forall|i: int| 0 <= i < h2.cursor && i < h2.list.len() implies HeapView::was_reachable(
            start,
            graph,
            #[trigger] h2.list[i],
        ) by {
            if i < c {
                assert(h2.list[i] == h.list[i]);
                assert(HeapView::was_reachable(start, graph, h.list[i]));
            } else {
                assert(h2.list[i] == h.list[c]);
            }
        }
        lemma_sweep_step_only_reachable(h2, start, graph, (limit - 1) as nat);
    }
}

/// However far a cycle is run, it marks and keeps only what was reachable.
pub proof fn lemma_steps_only_reachable(h: HeapView, start: HeapView, graph: ObjectGraph, n: nat)
    requires
        h.wf(),
        start.wf(),
        h.keeps_only_reachable(start, graph),
    ensures
        h.steps(graph, n).wf(),
        h.steps(graph, n).keeps_only_reachable(start, graph),
    decreases n,
{
    if n > 0 {
        let before = h.steps(graph, (n - 1) as nat);
        lemma_steps_only_reachable(h, start, graph, (n - 1) as nat);
        lemma_step_wf(before, graph);
        match before.phase {
            GcPhase::Marking => {
                lemma_mark_step_only_reachable(before, start, graph, DEFAULT_MARK_STEP_SIZE as nat);
            },
            GcPhase::Sweeping => {
                lemma_sweep_step_only_reachable(
                    before,
                    start,
                    graph,
                    DEFAULT_SWEEP_STEP_SIZE as nat,
                );
            },
            _ => {},
        }
    }
}

/// A cycle that is started on an idle heap whose objects are all white and run
/// to its end keeps exactly the objects that were reachable from a root when
/// it was started, as long as the embedder's pointers stay as they are and
/// nothing is allocated meanwhile: the reachable objects survive, and every
/// other object is freed.
pub proof fn law_cycle_keeps_exactly_the_reachable(
    h: HeapView,
    graph: ObjectGraph,
    n: nat,
    object_ptr: usize,
)
    requires
        h.wf(),
        !h.gc_in_progress(),
        h.all_white(),
        h.start(graph.roots).steps(graph, n).phase == GcPhase::Idle,
    ensures
        h.start(graph.roots).steps(graph, n).manages(object_ptr) == graph.reaches(h, object_ptr),
{
    let scanning = HeapView {
        phase: GcPhase::RootScanning,
        bytes_freed: 0,
        objects_freed: 0,
        ..h
    };
    let started = h.start(graph.roots);
    let after = started.steps(graph, n);
    if graph.reaches(h, object_ptr) {
        law_reachable_objects_survive(h, graph, n, object_ptr);
    }
    lemma_start_wf(h, graph.roots);
    lemma_mark_all_wf(scanning, graph.roots);
    assert forall|j: int|
        0 <= j < graph.roots.len() && scanning.manages(#[trigger] graph.roots[j]) implies graph.reaches(
        h,
        graph.roots[j],
    ) by {
        let path = seq![graph.roots[j]];
        assert(path[0] == graph.roots[j]);
        assert(h.manages(path[0]));
        assert(graph.is_path(h, path));
        assert(path.last() == graph.roots[j]);
    }
    lemma_mark_all_only_reachable(scanning, h, graph, graph.roots);
    assert(started.keeps_only_reachable(h, graph));
    lemma_steps_only_reachable(started, h, graph, n);
    if after.manages(object_ptr) {
        let a = (object_ptr - GcHeader::SIZE) as usize;
        assert(after.objects.contains_key(a));
        assert(HeapView::was_reachable(h, graph, a));
        assert((a + GcHeader::SIZE) as usize == object_ptr);
    }
}

/// However far a collection is run, it adds no object and changes neither the
/// address, the size nor the owner of an object that it leaves.
pub proof fn law_collection_moves_nothing(h: HeapView, graph: ObjectGraph, n: nat)
    requires
        h.wf(),
    ensures
        h.steps(graph, n).wf(),
        forall|a: usize| #[trigger]
            h.steps(graph, n).objects.contains_key(a) ==> {
                &&& h.objects.contains_key(a)
                &&& h.steps(graph, n).objects[a].alloc_size == h.objects[a].alloc_size
                &&& h.steps(graph, n).objects[a].context == h.objects[a].context
            },
    decreases n,
{
    if n > 0 {
        law_collection_moves_nothing(h, graph, (n - 1) as nat);
        lemma_step_moves_nothing(h.steps(graph, (n - 1) as nat), graph);
        lemma_step_wf(h.steps(graph, (n - 1) as nat), graph);
    }
}

/// A root that points to a live object when a cycle is started on an idle heap
/// whose objects are all white points to the same object after the cycle: the
/// object is still live, at the same address, with its size and its owner.
pub proof fn law_roots_stay_in_place(h: HeapView, graph: ObjectGraph, n: nat, i: int)
    requires
        h.wf(),
        !h.gc_in_progress(),
        h.all_white(),
        0 <= i < graph.roots.len(),
        h.manages(graph.roots[i]),
        h.start(graph.roots).steps(graph, n).phase == GcPhase::Idle,
    ensures
        ({
            let after = h.start(graph.roots).steps(graph, n);
            let a = (graph.roots[i] - GcHeader::SIZE) as usize;
            &&& after.manages(graph.roots[i])
            &&& after.objects[a].alloc_size == h.objects[a].alloc_size
            &&& after.objects[a].context == h.objects[a].context
        }),
{
    let root = graph.roots[i];
    let path = seq![root];
    assert(path[0] == root);
    assert(graph.is_path(h, path));
    assert(path.last() == root);
    law_reachable_objects_survive(h, graph, n, root);
    lemma_start_wf(h, graph.roots);
    law_collection_moves_nothing(h.start(graph.roots), graph, n);
    let scanning = HeapView {
        phase: GcPhase::RootScanning,
        bytes_freed: 0,
        objects_freed: 0,
        ..h
    };
    lemma_mark_all_wf(scanning, graph.roots);
}

} // verus!
