//! The managed heap: allocation and incremental tri-color mark-sweep collection.

use crate::gc_header::{align_up_spec, GcColor, GcHeader, GcPhase};
use crate::gray_queue::GrayQueue;
use crate::heap_model::{
    lemma_allocate_wf, lemma_blacken_top_wf, lemma_count_unscanned_bounds,
    lemma_finish_sweep_wf, lemma_mark_all_wf, lemma_mark_one_wf, lemma_step_ignores_graph,
    lemma_step_wf, lemma_step_work, lemma_steps_to_idle, lemma_sweep_one_wf,
    lemma_total_bytes_lower_bound, HeapView, ADDRESS_BASE, DEFAULT_GC_THRESHOLD,
    DEFAULT_MARK_STEP_SIZE, DEFAULT_SWEEP_STEP_SIZE,
};
use crate::pointer::GcPtr;
use crate::visitor::{GcContext, GcVisitor};
use std::collections::HashMap;
use vstd::prelude::*;

verus! {

/// The error of an allocation for which no block could be had.
#[derive(Debug)]
pub struct AllocError;

/// The result of an allocation.
pub type AllocResult<T> = Result<T, AllocError>;

/// The managed heap with its incremental collector.
pub struct Heap {
    /// Head of the list of all objects.
    all_objects: Option<usize>,
    /// Bytes currently counted as allocated.
    bytes_allocated: usize,
    /// Objects currently counted as allocated.
    num_objects: usize,
    /// Allocated bytes above which a collection is due.
    gc_threshold: usize,
    /// Gray objects that wait to be scanned.
    gray_queue: GrayQueue,
    /// Phase of the current cycle.
    phase: GcPhase,
    /// While sweeping: the last object that was kept before the cursor.
    sweep_prev: Option<usize>,
    /// While sweeping: the object that is visited next.
    sweep_current: Option<usize>,
    /// Bytes freed so far in the current cycle.
    bytes_freed_this_cycle: usize,
    /// Objects freed so far in the current cycle.
    objects_freed_this_cycle: usize,
    /// The headers of the live objects by their address.
    headers: HashMap<usize, GcHeader>,
    /// The address at which the next header is placed.
    next_address: usize,
    /// What the heap holds, as mathematical values.
    model: Ghost<HeapView>,
}

impl View for Heap {
    type V = HeapView;

    closed spec fn view(&self) -> HeapView {
        self.model@
    }
}

impl Heap {
    /// The invariant of the heap: the view is well formed and the headers, the
    /// list links, the queue and the counters are as the view says.
    pub closed spec fn wf(&self) -> bool {
        let v = self.model@;
        &&& v.wf()
        &&& forall|a: usize| #[trigger] self.headers@.contains_key(a) <==> v.objects.contains_key(a)
        &&& forall|a: usize| #[trigger]
            v.objects.contains_key(a) ==> {
                &&& self.headers@[a]@.color == v.objects[a].color
                &&& self.headers@[a]@.context == v.objects[a].context
                &&& self.headers@[a]@.alloc_size == v.objects[a].alloc_size
            }
        &&& forall|i: int|
            0 <= i < v.list.len() ==> (#[trigger] self.headers@[v.list[i]])@.next_object == (if i
                + 1 < v.list.len() {
                Some(v.list[i + 1])
            } else {
                None
            })
        &&& self.all_objects == (if v.list.len() > 0 {
            Some(v.list[0])
        } else {
            None
        })
        &&& self.gray_queue@ == v.gray
        &&& self.phase == v.phase
        &&& self.bytes_allocated == v.bytes_allocated
        &&& self.num_objects == v.num_objects
        &&& self.gc_threshold == v.gc_threshold
        &&& self.bytes_freed_this_cycle == v.bytes_freed
        &&& self.objects_freed_this_cycle == v.objects_freed
        &&& self.next_address == v.next_address
        &&& v.phase == GcPhase::Sweeping ==> {
            &&& self.sweep_current == (if v.cursor < v.list.len() {
                Some(v.list[v.cursor])
            } else {
                None
            })
            &&& self.sweep_prev == (if v.cursor > 0 {
                Some(v.list[v.cursor - 1])
            } else {
                None
            })
        }
        &&& v.phase != GcPhase::Sweeping ==> self.sweep_current.is_none()
            && self.sweep_prev.is_none()
    }

    /// What follows from the invariant for the view.
    pub proof fn lemma_wf_view(&self)
        requires
            self.wf(),
        ensures
            self@.wf(),
    {
    }

    /// A heap that holds nothing.
    pub fn new() -> (heap: Heap)
        ensures
            heap.wf(),
            heap@ == HeapView::empty(),
    {
        Heap {
            all_objects: None,
            bytes_allocated: 0,
            num_objects: 0,
            gc_threshold: DEFAULT_GC_THRESHOLD,
            gray_queue: GrayQueue::new(),
            phase: GcPhase::Idle,
            sweep_prev: None,
            sweep_current: None,
            bytes_freed_this_cycle: 0,
            objects_freed_this_cycle: 0,
            headers: HashMap::new(),
            next_address: ADDRESS_BASE,
            model: Ghost(HeapView::empty()),
        }
    }

    /// The phase of the current cycle.
    #[inline]
    pub fn phase(&self) -> (phase: GcPhase)
        requires
            self.wf(),
        ensures
            phase == self@.phase,
    {
        self.phase
    }

    /// Whether a collection is in progress.
    #[inline]
    pub fn gc_in_progress(&self) -> (in_progress: bool)
        requires
            self.wf(),
        ensures
            in_progress == self@.gc_in_progress(),
    {
        self.phase != GcPhase::Idle
    }

    /// Whether objects are being marked, which is when the write barrier acts.
    #[inline]
    pub fn is_marking(&self) -> (marking: bool)
        requires
            self.wf(),
        ensures
            marking == self@.is_marking(),
    {
        self.phase == GcPhase::RootScanning || self.phase == GcPhase::Marking
    }

    /// Whether a collection is due: the heap is idle and holds more bytes than the threshold.
    #[inline]
    pub fn should_gc(&self) -> (due: bool)
        requires
            self.wf(),
        ensures
            due == self@.should_gc(),
    {
        self.bytes_allocated > self.gc_threshold && self.phase == GcPhase::Idle
    }

    /// The bytes currently counted as allocated.
    #[inline]
    pub fn bytes_allocated(&self) -> (bytes: usize)
        requires
            self.wf(),
        ensures
            bytes == self@.bytes_allocated,
    {
        self.bytes_allocated
    }

    /// The objects currently counted as allocated.
    #[inline]
    pub fn num_objects(&self) -> (count: usize)
        requires
            self.wf(),
        ensures
            count == self@.num_objects,
    {
        self.num_objects
    }

    /// The allocated bytes above which a collection is due.
    #[inline]
    pub fn gc_threshold(&self) -> (threshold: usize)
        requires
            self.wf(),
        ensures
            threshold == self@.gc_threshold,
    {
        self.gc_threshold
    }

    /// The bytes freed so far in the current cycle.
    #[inline]
    pub fn bytes_freed_this_cycle(&self) -> (bytes: usize)
        requires
            self.wf(),
        ensures
            bytes == self@.bytes_freed,
    {
        self.bytes_freed_this_cycle
    }

    /// The objects freed so far in the current cycle.
    #[inline]
    pub fn objects_freed_this_cycle(&self) -> (count: usize)
        requires
            self.wf(),
        ensures
            count == self@.objects_freed,
    {
        self.objects_freed_this_cycle
    }
}

impl Heap {
    /// A copy of the header at `header_ptr`, if an object lives there.
    fn header_at(&self, header_ptr: usize) -> (header: Option<GcHeader>)
        ensures
            header.is_some() == self.headers@.contains_key(header_ptr),
            header.is_some() ==> header.unwrap() == self.headers@[header_ptr],
    {
        match self.headers.get(&header_ptr) {
            Some(header) => Some(*header),
            None => None,
        }
    }

    /// Marks the object whose body is at `object_ptr` gray if it is live and white.
    #[inline]
    pub fn mark_gray_raw(&mut self, object_ptr: usize)
        requires
            old(self).wf(),
            old(self)@.is_marking(),
        ensures
            final(self).wf(),
            final(self)@ == old(self)@.mark_one(object_ptr),
    {
        proof {
            lemma_mark_one_wf(self@, object_ptr);
        }
        if let Some(header_ptr) = GcHeader::from_object_ptr(object_ptr) {
            if let Some(header) = self.header_at(header_ptr) {
                if header.color() == GcColor::White {
                    let mut gray_header = header;
                    gray_header.set_color(GcColor::Gray);
                    self.headers.insert(header_ptr, gray_header);
                    self.gray_queue.push(header_ptr);
                    proof {
                        self.model@ = self.model@.mark_one(object_ptr);
                    }
                }
            }
        }
    }

    /// Marks the object that `ptr` points to gray if it is live and white.
    #[inline]
    pub fn mark_gray_ptr<T>(&mut self, ptr: GcPtr<T>)
        requires
            old(self).wf(),
            old(self)@.is_marking(),
        ensures
            final(self).wf(),
            final(self)@ == (if ptr.is_dangling_spec() {
                old(self)@
            } else {
                old(self)@.mark_one(ptr@)
            }),
    {
        if ptr.is_dangling() {
            return ;
        }
        self.mark_gray_raw(ptr.as_ptr());
    }
}

/// The visitor of the marking phases: marks every object that is reported to
/// it as strongly held. It holds the heap while the embedder reports pointers
/// and hands it back afterwards.
pub struct Marker {
    heap: Heap,
    /// The weakly held addresses that were reported. They mark nothing.
    weak: Ghost<Seq<usize>>,
}

impl Marker {
    /// A marker for a heap that is in a marking phase.
    pub fn new(heap: Heap) -> (marker: Self)
        requires
            heap.wf(),
            heap@.is_marking(),
        ensures
            marker.well_formed(),
            marker.heap_view() == heap@,
            marker.weak_seen() == Seq::<usize>::empty(),
    {
        Marker { heap, weak: Ghost(Seq::empty()) }
    }

    /// Hands the heap back.
    pub fn into_heap(self) -> (heap: Heap)
        requires
            self.well_formed(),
        ensures
            heap.wf(),
            heap@ == self.heap_view(),
    {
        self.heap
    }
}

impl GcVisitor for Marker {
    closed spec fn well_formed(&self) -> bool {
        self.heap.wf() && self.heap@.is_marking()
    }

    closed spec fn heap_view(&self) -> HeapView {
        self.heap@
    }

    closed spec fn weak_seen(&self) -> Seq<usize> {
        self.weak@
    }

    fn visit_raw(&mut self, ptr: usize) {
        proof {
            lemma_mark_one_wf(self.heap@, ptr);
        }
        self.heap.mark_gray_raw(ptr);
    }

    /// A weak pointer is not traced while objects are marked: the heap stays
    /// as it is. What becomes of the pointer is settled when marking is complete.
    fn visit_weak_raw(&mut self, ptr: usize) {
        proof {
            self.weak@ = self.weak@.push(ptr);
        }
    }
}

impl Heap {
    /// Moves the heap out and leaves an empty one in its place.
    fn take(&mut self) -> (heap: Heap)
        ensures
            heap == *old(self),
    {
        let mut heap = Heap::new();
        core::mem::swap(self, &mut heap);
        heap
    }

    /// Starts a collection cycle: marks every root gray and enters the marking
    /// phase. Does nothing while a collection is in progress.
    pub fn start_gc<C: GcContext>(&mut self, ctx: &mut C)
        requires
            old(self).wf(),
        ensures
            final(self).wf(),
            final(self)@ == old(self)@.start(old(ctx).graph().roots),
            final(ctx).graph() == old(ctx).graph(),
    {
        if self.gc_in_progress() {
            return ;
        }
        self.phase = GcPhase::RootScanning;
        self.bytes_freed_this_cycle = 0;
        self.objects_freed_this_cycle = 0;
        proof {
            self.model@ = HeapView {
                phase: GcPhase::RootScanning,
                bytes_freed: 0,
                objects_freed: 0,
                ..self.model@
            };
            lemma_mark_all_wf(self@, ctx.graph().roots);
        }
        let mut marker = Marker::new(self.take());
        ctx.visit_roots(&mut marker);
        *self = marker.into_heap();
        self.phase = GcPhase::Marking;
        proof {
            self.model@ = HeapView { phase: GcPhase::Marking, ..self.model@ };
        }
    }
}

impl Heap {
    /// Scans up to `work_limit` gray objects: each is colored black and traced.
    /// When the gray queue is found empty, marking is complete and the weak
    /// reference phase begins.
    fn mark_step<C: GcContext>(&mut self, ctx: &mut C, work_limit: usize)
        requires
            old(self).wf(),
            old(self)@.phase == GcPhase::Marking,
        ensures
            final(self).wf(),
            final(self)@ == old(self)@.mark_step(old(ctx).graph(), work_limit as nat),
            final(ctx).graph() == old(ctx).graph(),
    {
        let ghost graph = ctx.graph();
        let ghost start = self@;
        let mut work_done: usize = 0;
        while work_done < work_limit
            invariant
                self.wf(),
                self@.phase == GcPhase::Marking,
                work_done <= work_limit,
                ctx.graph() == graph,
                graph == old(ctx).graph(),
                start == old(self)@,
                self@.mark_step(graph, (work_limit - work_done) as nat) == start.mark_step(
                    graph,
                    work_limit as nat,
                ),
            decreases work_limit - work_done,
        {
            let ghost before = self@;
            match self.gray_queue.pop() {
                Some(header_ptr) => {
                    proof {
                        lemma_blacken_top_wf(before);
                    }
                    let mut header = self.header_at(header_ptr).unwrap();
                    header.set_color(GcColor::Black);
                    self.headers.insert(header_ptr, header);
                    proof {
                        self.model@ = before.blacken_top();
                    }
                    let object_ptr: usize = GcHeader::object_ptr(header_ptr);
                    proof {
                        lemma_mark_all_wf(self@, graph.out_edges(object_ptr));
                    }
                    let mut marker = Marker::new(self.take());
                    ctx.trace_object(object_ptr, &mut marker);
                    *self = marker.into_heap();
                    work_done += 1;
                },
                None => {
                    self.phase = GcPhase::WeakRefProcessing;
                    proof {
                        self.model@ = HeapView { phase: GcPhase::WeakRefProcessing, ..before };
                    }
                    return ;
                },
            }
        }
    }

    /// Ends the sweep: takes what was freed off the counters, sets the next
    /// threshold and leaves the heap idle.
    fn finish_sweep(&mut self)
        requires
            old(self).wf(),
            old(self)@.phase == GcPhase::Sweeping,
        ensures
            final(self).wf(),
            final(self)@ == old(self)@.finish_sweep(),
    {
        proof {
            lemma_finish_sweep_wf(self@);
        }
        self.bytes_allocated -= self.bytes_freed_this_cycle;
        self.num_objects -= self.objects_freed_this_cycle;
        let doubled: usize = self.bytes_allocated * 2;
        self.gc_threshold = if doubled >= DEFAULT_GC_THRESHOLD {
            doubled
        } else {
            DEFAULT_GC_THRESHOLD
        };
        self.phase = GcPhase::Idle;
        self.sweep_prev = None;
        self.sweep_current = None;
        self.bytes_freed_this_cycle = 0;
        self.objects_freed_this_cycle = 0;
        proof {
            self.model@ = self.model@.finish_sweep();
        }
    }

    /// Visits the object at the sweep cursor: a white object is unlinked from the
    /// list of all objects and freed, any other is colored white and kept.
    #[verifier::rlimit(40)]
    fn sweep_one(&mut self, header_ptr: usize)
        requires
            old(self).wf(),
            old(self)@.phase == GcPhase::Sweeping,
            old(self)@.cursor < old(self)@.list.len(),
            header_ptr == old(self)@.list[old(self)@.cursor],
        ensures
            final(self).wf(),
            final(self)@ == old(self)@.sweep_one(),
    {
        let ghost before = self@;
        let ghost cursor = before.cursor;
        proof {
            lemma_sweep_one_wf(before);
            lemma_finish_sweep_wf(before);
            assert(before.list.contains(header_ptr));
        }
        let mut header = self.header_at(header_ptr).unwrap();
        let next = header.next_object();
        if header.color() == GcColor::White {
            match self.sweep_prev {
                Some(prev_ptr) => {
                    assert(prev_ptr == before.list[cursor - 1]);
                    assert(before.list.contains(prev_ptr));
                    let mut prev = self.header_at(prev_ptr).unwrap();
                    prev.set_next_object(next);
                    self.headers.insert(prev_ptr, prev);
                },
                None => {
                    self.all_objects = next;
                },
            }
            self.bytes_freed_this_cycle += header.total_size();
            self.objects_freed_this_cycle += 1;
            self.headers.remove(&header_ptr);
            self.sweep_current = next;
            proof {
                self.model@ = before.sweep_one();
                let after = self.model@;
                assert forall|i: int| 0 <= i < after.list.len() implies (
                #[trigger] self.headers@[after.list[i]])@.next_object == (if i + 1
                    < after.list.len() {
                    Some(after.list[i + 1])
                } else {
                    None
                }) by {
                    if i < cursor {
                        assert(after.list[i] == before.list[i]);
                        assert(before.list[i] != header_ptr);
                        if i == cursor - 1 {
                        } else {
                            assert(after.list[i + 1] == before.list[i + 1]);
                        }
                    } else {
                        assert(after.list[i] == before.list[i + 1]);
                        assert(before.list[i + 1] != header_ptr);
                        assert(cursor > 0 ==> before.list[i + 1] != before.list[cursor - 1]);
                    }
                }
            }
        } else {
            header.set_color(GcColor::White);
            self.headers.insert(header_ptr, header);
            self.sweep_prev = Some(header_ptr);
            self.sweep_current = next;
            proof {
                self.model@ = before.sweep_one();
            }
        }
    }

    /// Visits up to `work_limit` objects with the sweep cursor. When the cursor is
    /// found at the end of the list, the cycle ends.
    fn sweep_step(&mut self, work_limit: usize)
        requires
            old(self).wf(),
            old(self)@.phase == GcPhase::Sweeping,
        ensures
            final(self).wf(),
            final(self)@ == old(self)@.sweep_step(work_limit as nat),
    {
        let ghost start = self@;
        let mut work_done: usize = 0;
        while work_done < work_limit
            invariant
                self.wf(),
                self@.phase == GcPhase::Sweeping,
                work_done <= work_limit,
                start == old(self)@,
                self@.sweep_step((work_limit - work_done) as nat) == start.sweep_step(
                    work_limit as nat,
                ),
            decreases work_limit - work_done,
        {
            match self.sweep_current {
                Some(header_ptr) => {
                    self.sweep_one(header_ptr);
                    work_done += 1;
                },
                None => {
                    self.finish_sweep();
                    return ;
                },
            }
        }
    }

    /// Advances the collection by one step and says whether it is still in progress.
    ///
    /// An idle heap is left as it is. A marking step scans a bounded number of
    /// gray objects, the weak reference step hands the heap to the embedder
    /// once, and a sweeping step visits a bounded number of objects.
    pub fn gc_step<C: GcContext>(&mut self, ctx: &mut C) -> (in_progress: bool)
        requires
            old(self).wf(),
        ensures
            final(self).wf(),
            final(self)@ == old(self)@.step(old(ctx).graph()),
            in_progress == final(self)@.gc_in_progress(),
            old(self)@.phase != GcPhase::WeakRefProcessing ==> final(ctx).graph() == old(ctx).graph(),
    {
        proof {
            lemma_step_wf(self@, ctx.graph());
        }
        match self.phase {
            GcPhase::Idle => false,
            GcPhase::RootScanning => {
                self.phase = GcPhase::Marking;
                proof {
                    self.model@ = HeapView { phase: GcPhase::Marking, ..self.model@ };
                }
                true
            },
            GcPhase::Marking => {
                self.mark_step(ctx, DEFAULT_MARK_STEP_SIZE);
                self.phase != GcPhase::Idle
            },
            GcPhase::WeakRefProcessing => {
                ctx.process_weak_refs(self);
                self.phase = GcPhase::Sweeping;
                self.sweep_prev = None;
                self.sweep_current = self.all_objects;
                proof {
                    self.model@ = self.model@.begin_sweep();
                }
                true
            },
            GcPhase::Sweeping => {
                self.sweep_step(DEFAULT_SWEEP_STEP_SIZE);
                self.phase != GcPhase::Idle
            },
        }
    }
}

impl Heap {
    /// Runs the collection to its end and returns the number of steps taken.
    ///
    /// At least one step is taken, also on an idle heap. The result is the least
    /// number of steps, one or more, after which the heap is idle.
    #[verifier::rlimit(40)]
    pub fn finish_gc<C: GcContext>(&mut self, ctx: &mut C) -> (steps: usize)
        requires
            old(self).wf(),
        ensures
            final(self).wf(),
            steps >= 1,
            final(self)@ == old(self)@.steps(old(ctx).graph(), steps as nat),
            final(self)@.phase == GcPhase::Idle,
            old(self)@.idle_after(old(ctx).graph(), steps as nat),
            steps == old(self)@.steps_to_idle(old(ctx).graph()),
            final(self)@ == old(self)@.finished(old(ctx).graph()),
    {
        let ghost graph = ctx.graph();
        let ghost start = self@;
        let mut steps: usize = 0;
        proof {
            lemma_total_bytes_lower_bound(start.objects, start.list);
            lemma_count_unscanned_bounds(start.objects, start.list);
        }
        loop
            invariant_except_break
                self.wf(),
                graph == old(ctx).graph(),
                start == old(self)@,
                start.wf(),
                start.remaining_work() <= 4 + 2 * start.list.len(),
                start.list.len() * 24 <= usize::MAX / 2,
                self@ == start.steps(graph, steps as nat),
                forall|k: nat| 1 <= k <= steps ==> (#[trigger] start.steps(graph, k)).phase
                    != GcPhase::Idle,
                self@.phase != GcPhase::Sweeping && self@.phase != GcPhase::Idle ==> ctx.graph()
                    == graph,
                0 <= self@.remaining_work(),
                steps + self@.remaining_work() <= start.remaining_work(),
            ensures
                self.wf(),
                steps >= 1,
                self@ == start.steps(graph, steps as nat),
                self@.phase == GcPhase::Idle,
                forall|k: nat| 1 <= k < steps ==> (#[trigger] start.steps(graph, k)).phase
                    != GcPhase::Idle,
            decreases self@.remaining_work(),
        {
            let ghost before = self@;
            proof {
                if before.phase != GcPhase::Marking {
                    lemma_step_ignores_graph(before, ctx.graph(), graph);
                }
                lemma_step_wf(before, graph);
                if before.gc_in_progress() {
                    lemma_step_work(before, graph);
                }
                assert(start.steps(graph, (steps + 1) as nat) == start.steps(
                    graph,
                    steps as nat,
                ).step(graph));
            }
            let in_progress = self.gc_step(ctx);
            steps += 1;
            if !in_progress {
                break ;
            }
        }
        proof {
            lemma_steps_to_idle(start, graph, steps as nat);
        }
        steps
    }

    /// Whether `object_ptr` is the body address of a live object.
    #[inline]
    pub fn manages(&self, object_ptr: usize) -> (managed: bool)
        requires
            self.wf(),
        ensures
            managed == self@.manages(object_ptr),
    {
        match GcHeader::from_object_ptr(object_ptr) {
            Some(header_ptr) => self.headers.contains_key(&header_ptr),
            None => false,
        }
    }

    /// Adds an object with a body of `size` bytes and returns the address of the body.
    ///
    /// While a collection is in progress the collector first advances by one
    /// step, and the new object is black so that the current cycle keeps it.
    /// Otherwise the object is white. Fails, after that step, if no block of the
    /// needed size can be had.
    ///
    /// The new object goes to the head of the list of all objects. While the
    /// heap is sweeping that is behind the cursor: the sweep does not visit the
    /// object, which therefore stays black until the next cycle colors it white.
    #[verifier::rlimit(40)]
    pub fn alloc_with_size<T, C: GcContext>(&mut self, ctx: &mut C, size: usize) -> (result:
        AllocResult<GcPtr<T>>)
        requires
            old(self).wf(),
        ensures
            final(self).wf(),
            ({
                let stepped = old(self)@.step_if_collecting(old(ctx).graph());
                match result {
                    Ok(ptr) => {
                        &&& stepped.can_alloc(size)
                        &&& ptr@ == stepped.next_address + GcHeader::SIZE
                        &&& exists|context: usize|
                            context % 8 == 0 && final(self)@ == #[trigger] stepped.allocate(
                                size,
                                context,
                            )
                    },
                    Err(_) => !stepped.can_alloc(size) && final(self)@ == stepped,
                }
            }),
            old(self)@.phase != GcPhase::WeakRefProcessing ==> final(ctx).graph() == old(
                ctx,
            ).graph(),
    {
        if self.gc_in_progress() {
            self.gc_step(ctx);
        }
        let ghost stepped = self@;
        let limit: usize = usize::MAX / 2;
        if size > limit - GcHeader::SIZE - 7 {
            assert(align_up_spec(size as int, 8) >= size);
            return Err(AllocError);
        }
        let layout = GcHeader::layout_for_size(size);
        if layout.size > limit - self.next_address {
            return Err(AllocError);
        }
        let context_ptr = ctx.as_context_ptr();
        proof {
            lemma_allocate_wf(stepped, size, context_ptr);
        }
        let header_ptr: usize = self.next_address;
        let mut header = GcHeader::new(size, context_ptr);
        if self.gc_in_progress() {
            header.set_color(GcColor::Black);
        }
        header.set_next_object(self.all_objects);
        self.headers.insert(header_ptr, header);
        self.all_objects = Some(header_ptr);
        if self.phase == GcPhase::Sweeping && self.sweep_prev.is_none() {
            self.sweep_prev = Some(header_ptr);
        }
        self.bytes_allocated += header.total_size();
        self.num_objects += 1;
        self.next_address += layout.size;
        proof {
            self.model@ = stepped.allocate(size, context_ptr);
            let after = self.model@;
            assert forall|i: int| 0 <= i < after.list.len() implies (
            #[trigger] self.headers@[after.list[i]])@.next_object == (if i + 1
                < after.list.len() {
                Some(after.list[i + 1])
            } else {
                None
            }) by {
                if i > 0 {
                    assert(after.list[i] == stepped.list[i - 1]);
                    assert(stepped.list.contains(stepped.list[i - 1]));
                }
            }
        }
        assert(self@ == stepped.allocate(size, context_ptr));
        Ok(GcPtr::from_ptr(GcHeader::object_ptr(header_ptr)))
    }

    /// Adds an object with a body of the size of `T`: see [`Heap::alloc_with_size`].
    pub fn alloc_object<T, C: GcContext>(&mut self, ctx: &mut C) -> (result: AllocResult<GcPtr<T>>)
        requires
            old(self).wf(),
        ensures
            final(self).wf(),
            ({
                let size = vstd::layout::size_of::<T>() as usize;
                let stepped = old(self)@.step_if_collecting(old(ctx).graph());
                match result {
                    Ok(ptr) => {
                        &&& stepped.can_alloc(size)
                        &&& ptr@ == stepped.next_address + GcHeader::SIZE
                        &&& exists|context: usize|
                            context % 8 == 0 && final(self)@ == #[trigger] stepped.allocate(
                                size,
                                context,
                            )
                    },
                    Err(_) => !stepped.can_alloc(size) && final(self)@ == stepped,
                }
            }),
            old(self)@.phase != GcPhase::WeakRefProcessing ==> final(ctx).graph() == old(
                ctx,
            ).graph(),
    {
        self.alloc_with_size(ctx, core::mem::size_of::<T>())
    }

    /// The write barrier, to be called for every strong pointer that is stored
    /// into a live object: while objects are being marked, a white target is
    /// marked gray. In the other phases nothing happens.
    #[inline]
    pub fn write_barrier<T>(&mut self, target: GcPtr<T>)
        requires
            old(self).wf(),
        ensures
            final(self).wf(),
            final(self)@ == old(self)@.write_barrier(target@),
    {
        if self.is_marking() && !target.is_dangling() {
            self.mark_gray_ptr(target);
        }
    }

    /// The write barrier for a plain address: see [`Heap::write_barrier`].
    #[inline]
    pub fn write_barrier_raw(&mut self, target: usize)
        requires
            old(self).wf(),
        ensures
            final(self).wf(),
            final(self)@ == old(self)@.write_barrier(target),
    {
        if self.is_marking() && target != 0 {
            self.mark_gray_raw(target);
        }
    }

    /// Whether the object that `ptr` points to is alive, that is live and gray or
    /// black. Meant for the handling of weak references: after marking, the
    /// objects that are not alive will be freed.
    #[inline]
    pub fn is_alive<T>(&self, ptr: GcPtr<T>) -> (alive: bool)
        requires
            self.wf(),
        ensures
            alive == self@.is_alive(ptr@),
    {
        if ptr.is_dangling() {
            return false;
        }
        self.is_alive_raw(ptr.as_ptr())
    }

    /// Whether the object whose body is at `object_ptr` is alive: see [`Heap::is_alive`].
    #[inline]
    pub fn is_alive_raw(&self, object_ptr: usize) -> (alive: bool)
        requires
            self.wf(),
        ensures
            alive == self@.is_alive(object_ptr),
    {
        match GcHeader::from_object_ptr(object_ptr) {
            Some(header_ptr) => match self.header_at(header_ptr) {
                Some(header) => header.color() != GcColor::White,
                None => false,
            },
            None => false,
        }
    }
}

impl Default for Heap {
    fn default() -> (heap: Self)
        ensures
            heap.wf(),
            heap@ == HeapView::empty(),
    {
        Self::new()
    }
}

} // verus!
