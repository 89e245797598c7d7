//! The heap of the runtime: the managed heap together with the policy of the
//! runtime for allocation and collection.

use crate::gc_header::{GcHeader, GcPhase};
use crate::heap::{AllocError, AllocResult};
use crate::heap_model::{
    lemma_collecting_keeps_next_address, lemma_mark_all_concat, HeapView, ObjectGraph,
};
use crate::runtime::context::{runtime_graph, Context};
use crate::runtime::gc::heap_item::{weak_edges_of, HeapItems};
use crate::runtime::gc::heap_visitor::GcVisitorExt;
use crate::runtime::gc::pointer::HeapPtr;
use crate::runtime::heap_item_descriptor::BaseDescriptors;
use crate::runtime::stack::handle::StackRootContext;
use crate::visitor::{GcContext, GcVisitor};
use vstd::prelude::*;

verus! {

/// The heap of the runtime.
pub struct Heap {
    /// The managed heap.
    gc_heap: crate::heap::Heap,
    /// Whether every allocation runs a whole collection first.
    gc_stress_test: bool,
}

/// The runtime as the collector sees it while it collects: the roots and the
/// bodies of the items, which the collector reads and leaves as they are.
pub struct RuntimeContext<'a> {
    handle_context: &'a StackRootContext,
    base_descriptors: &'a BaseDescriptors,
    items: &'a HeapItems,
    context_ptr: usize,
}

impl<'a> RuntimeContext<'a> {
    #[verifier::type_invariant]
    spec fn inv(self) -> bool {
        self.handle_context.wf() && self.items.wf()
    }

    /// The address by which the headers name the context.
    pub closed spec fn context_address(&self) -> usize {
        self.context_ptr
    }

    /// The weak pointers that the item at `object_ptr` holds, in the order in
    /// which tracing reports them.
    pub closed spec fn weak_edges(&self, object_ptr: usize) -> Seq<usize> {
        weak_edges_of(self.items@, object_ptr)
    }

    /// The view of the collector on the parts of a runtime.
    pub fn new(
        handle_context: &'a StackRootContext,
        base_descriptors: &'a BaseDescriptors,
        items: &'a HeapItems,
        context_ptr: usize,
    ) -> (ctx: RuntimeContext<'a>)
        requires
            handle_context.wf(),
            items.wf(),
        ensures
            ctx.graph() == runtime_graph(base_descriptors, handle_context, items),
            ctx.context_address() == context_ptr,
            forall|object_ptr: usize| #[trigger]
                ctx.weak_edges(object_ptr) == weak_edges_of(items@, object_ptr),
    {
        RuntimeContext { handle_context, base_descriptors, items, context_ptr }
    }
}

impl<'a> GcContext for RuntimeContext<'a> {
    closed spec fn graph(&self) -> ObjectGraph {
        runtime_graph(self.base_descriptors, self.handle_context, self.items)
    }

    /// Reports the roots: the descriptors, then the pointers in the live root
    /// cells. Every root is held strongly.
    fn visit_roots<V: GcVisitor>(&mut self, visitor: &mut V)
        ensures
            final(visitor).weak_seen() == old(visitor).weak_seen(),
    {
        proof {
            use_type_invariant(&*self);
            lemma_mark_all_concat(
                visitor.heap_view(),
                self.base_descriptors.root_pointers(),
                self.handle_context.root_pointers(),
            );
        }
        self.base_descriptors.visit_roots(visitor);
        self.handle_context.visit_roots(visitor);
    }

    /// Traces the item at `object_ptr` by the kind that its descriptor tells:
    /// the strong pointers of the item mark their targets, its weak pointers
    /// are reported as weak.
    fn trace_object<V: GcVisitor>(&mut self, object_ptr: usize, visitor: &mut V)
        ensures
            final(visitor).weak_seen() == old(visitor).weak_seen() + old(self).weak_edges(
                object_ptr,
            ),
    {
        proof {
            use_type_invariant(&*self);
        }
        self.items.trace(object_ptr, visitor);
    }

    /// The address by which the headers name the context, rounded down to the
    /// alignment of headers.
    fn as_context_ptr(&mut self) -> (ptr: usize)
        ensures
            ptr == old(self).context_address() - old(self).context_address() % 8,
    {
        self.context_ptr - self.context_ptr % 8
    }
}

impl Heap {
    /// The view of the managed heap.
    pub closed spec fn gc_view(&self) -> HeapView {
        self.gc_heap@
    }

    /// The invariant of the heap.
    pub closed spec fn wf(&self) -> bool {
        self.gc_heap.wf()
    }

    /// What follows from the invariant for the view of the managed heap.
    pub proof fn lemma_view_wf(&self)
        requires
            self.wf(),
        ensures
            self.gc_view().wf(),
    {
        self.gc_heap.lemma_wf_view();
    }

    /// Whether every allocation runs a whole collection first.
    pub closed spec fn stress(&self) -> bool {
        self.gc_stress_test
    }

    /// Whether every allocation runs a whole collection first.
    pub fn gc_stress_test(&self) -> (stress: bool)
        ensures
            stress == self.stress(),
    {
        self.gc_stress_test
    }

    /// Sets whether every allocation runs a whole collection first.
    pub fn set_gc_stress_test(&mut self, stress: bool)
        ensures
            final(self).stress() == stress,
            final(self).gc_view() == old(self).gc_view(),
            final(self).wf() == old(self).wf(),
    {
        self.gc_stress_test = stress;
    }

    /// An empty heap. The managed heap grows as needed, whatever size is asked for.
    pub fn new(_initial_size: usize) -> (heap: Heap)
        ensures
            heap.wf(),
            heap.gc_view() == HeapView::empty(),
            !heap.stress(),
    {
        let gc_heap = crate::heap::Heap::new();
        Heap { gc_heap, gc_stress_test: false }
    }

    /// The managed heap.
    pub fn gc_heap(&self) -> (gc_heap: &crate::heap::Heap)
        ensures
            gc_heap@ == self.gc_view(),
            self.wf() ==> gc_heap.wf(),
    {
        &self.gc_heap
    }

    /// The managed heap, to be changed in place.
    pub fn gc_heap_mut(&mut self) -> (gc_heap: &mut crate::heap::Heap)
        ensures
            gc_heap@ == old(self).gc_view(),
            old(self).wf() ==> gc_heap.wf(),
            final(self).gc_view() == final(gc_heap)@,
            final(self).wf() == final(gc_heap).wf(),
            final(self).stress() == old(self).stress(),
    {
        &mut self.gc_heap
    }

    /// The write barrier of the managed heap for a pointer to `target` that is
    /// being stored into an item: while objects are being marked, a white
    /// target is marked gray.
    pub fn write_barrier(&mut self, target: usize)
        requires
            old(self).wf(),
        ensures
            final(self).wf(),
            final(self).gc_view() == old(self).gc_view().write_barrier(target),
            final(self).stress() == old(self).stress(),
    {
        self.gc_heap.write_barrier_raw(target);
    }

    /// The heap as an allocation of the runtime finds it: in stress mode a
    /// whole collection runs first, and a collection in progress advances by
    /// one step.
    pub open spec fn before_alloc(h: HeapView, graph: ObjectGraph, stress: bool) -> HeapView {
        (if stress {
            h.collected(graph)
        } else {
            h
        }).step_if_collecting(graph)
    }

    /// Runs a whole collection without dropping the bodies of the freed items.
    fn collect(cx: &mut Context)
        requires
            old(cx).wf(),
        ensures
            final(cx).wf(),
            final(cx).same_but_heap(old(cx)),
            final(cx).heap.stress() == old(cx).heap.stress(),
            final(cx).heap.gc_view() == old(cx).heap.gc_view().collected(old(cx).graph()),
            final(cx).heap.gc_view().phase == GcPhase::Idle,
    {
        let mut ctx = RuntimeContext::new(
            &cx.handle_context,
            &cx.base_descriptors,
            &cx.items,
            cx.address,
        );
        cx.heap.gc_heap.start_gc(&mut ctx);
        cx.heap.gc_heap.finish_gc(&mut ctx);
    }

    /// Runs a whole collection cycle: starts one unless one is in progress, runs
    /// it to its end, and drops the bodies of the items that were freed. The
    /// root cells and the descriptors stay as they are.
    pub fn run_gc(cx: &mut Context)
        requires
            old(cx).wf(),
        ensures
            final(cx).wf(),
            final(cx).heap.gc_view() == old(cx).heap.gc_view().collected(old(cx).graph()),
            final(cx).heap.gc_view().phase == GcPhase::Idle,
            final(cx).heap.stress() == old(cx).heap.stress(),
            final(cx).handle_context == old(cx).handle_context,
            final(cx).base_descriptors == old(cx).base_descriptors,
            final(cx).rust_vtables == old(cx).rust_vtables,
            final(cx).address == old(cx).address,
            forall|a: usize| #[trigger]
                final(cx).items@.contains_key(a) <==> old(cx).items@.contains_key(a) && final(cx).heap.gc_view().manages(a),
            forall|a: usize| #[trigger]
                final(cx).items@.contains_key(a) ==> final(cx).items@[a] == old(cx).items@[a],
    {
        Self::collect(cx);
        cx.items.prune(&cx.heap.gc_heap);
    }

    /// Advances a collection in progress by one step and says whether it is
    /// still in progress. When the step ends the cycle, the bodies of the items
    /// that were freed are dropped.
    pub fn gc_step(cx: &mut Context) -> (in_progress: bool)
        requires
            old(cx).wf(),
        ensures
            final(cx).wf(),
            final(cx).heap.gc_view() == old(cx).heap.gc_view().step(old(cx).graph()),
            in_progress == final(cx).heap.gc_view().gc_in_progress(),
            final(cx).heap.stress() == old(cx).heap.stress(),
            final(cx).handle_context == old(cx).handle_context,
            final(cx).base_descriptors == old(cx).base_descriptors,
            final(cx).rust_vtables == old(cx).rust_vtables,
            final(cx).address == old(cx).address,
            in_progress ==> final(cx).items == old(cx).items,
            forall|a: usize| #[trigger]
                final(cx).items@.contains_key(a) <==> old(cx).items@.contains_key(a) && (
                in_progress || final(cx).heap.gc_view().manages(a)),
            forall|a: usize| #[trigger]
                final(cx).items@.contains_key(a) ==> final(cx).items@[a] == old(cx).items@[a],
    {
        let mut ctx = RuntimeContext::new(
            &cx.handle_context,
            &cx.base_descriptors,
            &cx.items,
            cx.address,
        );
        let in_progress = cx.heap.gc_heap.gc_step(&mut ctx);
        if !in_progress {
            cx.items.prune(&cx.heap.gc_heap);
        }
        in_progress
    }

    /// Allocates a heap item with a body of `size` bytes and returns the address
    /// of the body. The body is to be put in place before the next collection point.
    ///
    /// In stress mode a whole collection runs first. If no block can be had,
    /// a whole collection runs and the allocation is tried once more; if it
    /// fails again, the error is returned.
    pub fn alloc_uninit_with_size<T>(cx: &mut Context, size: usize) -> (result: AllocResult<
        HeapPtr<T>,
    >)
        requires
            old(cx).wf(),
        ensures
            final(cx).wf(),
            final(cx).same_but_heap(old(cx)),
            final(cx).heap.stress() == old(cx).heap.stress(),
            result.is_ok() == old(cx).heap.gc_view().can_alloc(size),
            ({
                let before = Heap::before_alloc(
                    old(cx).heap.gc_view(),
                    old(cx).graph(),
                    old(cx).heap.stress(),
                );
                match result {
                    Ok(ptr) => {
                        &&& ptr@ == old(cx).heap.gc_view().next_address + GcHeader::SIZE
                        &&& exists|context: usize|
                            context % 8 == 0 && final(cx).heap.gc_view()
                                == #[trigger] before.allocate(size, context)
                    },
                    Err(_) => final(cx).heap.gc_view() == before.collected(old(cx).graph()),
                }
            }),
    {
        let ghost graph = cx.graph();
        let ghost start = cx.heap.gc_view();
        proof {
            lemma_collecting_keeps_next_address(start, graph, 0);
            lemma_collecting_keeps_next_address(
                start.start(graph.roots),
                graph,
                start.start(graph.roots).steps_to_idle(graph),
            );
            let before = Heap::before_alloc(start, graph, cx.heap.stress());
            lemma_collecting_keeps_next_address(start.collected(graph), graph, 0);
            lemma_collecting_keeps_next_address(before, graph, 0);
            lemma_collecting_keeps_next_address(
                before.start(graph.roots),
                graph,
                before.start(graph.roots).steps_to_idle(graph),
            );
        }
        // A whole collection before every allocation in stress mode.
        if cx.heap.gc_stress_test {
            Self::collect(cx);
        }
        let first = {
            let mut ctx = RuntimeContext::new(
                &cx.handle_context,
                &cx.base_descriptors,
                &cx.items,
                cx.address,
            );
            cx.heap.gc_heap.alloc_with_size::<T, RuntimeContext>(&mut ctx, size)
        };
        match first {
            Ok(gc_ptr) => Ok(HeapPtr::from_gc_ptr(gc_ptr)),
            Err(_) => {
                // Collect and try once more.
                Self::collect(cx);
                let second = {
                    let mut ctx = RuntimeContext::new(
                        &cx.handle_context,
                        &cx.base_descriptors,
                        &cx.items,
                        cx.address,
                    );
                    cx.heap.gc_heap.alloc_with_size::<T, RuntimeContext>(&mut ctx, size)
                };
                match second {
                    Ok(gc_ptr) => Ok(HeapPtr::from_gc_ptr(gc_ptr)),
                    Err(_) => Err(AllocError),
                }
            },
        }
    }

    /// Allocates a heap item with a body of the size of `T`: see
    /// [`Heap::alloc_uninit_with_size`].
    pub fn alloc_uninit<T>(cx: &mut Context) -> (result: AllocResult<HeapPtr<T>>)
        requires
            old(cx).wf(),
        ensures
            final(cx).wf(),
            final(cx).same_but_heap(old(cx)),
            final(cx).heap.stress() == old(cx).heap.stress(),
            result.is_ok() == old(cx).heap.gc_view().can_alloc(
                vstd::layout::size_of::<T>() as usize,
            ),
            ({
                let size = vstd::layout::size_of::<T>() as usize;
                let before = Heap::before_alloc(
                    old(cx).heap.gc_view(),
                    old(cx).graph(),
                    old(cx).heap.stress(),
                );
                match result {
                    Ok(ptr) => {
                        &&& ptr@ == old(cx).heap.gc_view().next_address + GcHeader::SIZE
                        &&& exists|context: usize|
                            context % 8 == 0 && final(cx).heap.gc_view()
                                == #[trigger] before.allocate(size, context)
                    },
                    Err(_) => final(cx).heap.gc_view() == before.collected(old(cx).graph()),
                }
            }),
    {
        Self::alloc_uninit_with_size::<T>(cx, core::mem::size_of::<T>())
    }
}

} // verus!
