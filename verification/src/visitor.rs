//! The two interfaces between the collector and its embedder.
//!
//! A [`GcVisitor`] is handed to the embedder, which reports pointers to it. A
//! [`GcContext`] is implemented by the embedder: it enumerates the roots and
//! traces single objects.

use crate::heap::Heap;
use crate::heap_model::{HeapView, ObjectGraph};
use crate::pointer::GcPtr;
use vstd::prelude::*;

verus! {

/// Receives the pointers that the embedder reports while roots are scanned and
/// objects are traced.
pub trait GcVisitor {
    /// The invariant of the visitor.
    spec fn well_formed(&self) -> bool;

    /// The heap whose objects the visitor marks, as the reports so far have left it.
    spec fn heap_view(&self) -> HeapView;

    /// The body addresses that were reported to the visitor as weakly held, in
    /// the order of the reports.
    spec fn weak_seen(&self) -> Seq<usize>;

    /// Reports the strongly held object body at `ptr`.
    fn visit_raw(&mut self, ptr: usize)
        requires
            old(self).well_formed(),
        ensures
            final(self).well_formed(),
            final(self).heap_view() == old(self).heap_view().mark_one(ptr),
            final(self).weak_seen() == old(self).weak_seen(),
    ;

    /// Reports the weakly held object body at `ptr`. A weak pointer does not keep
    /// its target alive: the report marks nothing and is only taken note of.
    fn visit_weak_raw(&mut self, ptr: usize)
        requires
            old(self).well_formed(),
        ensures
            final(self).well_formed(),
            final(self).heap_view() == old(self).heap_view(),
            final(self).weak_seen() == old(self).weak_seen().push(ptr),
    ;

    /// Reports a strongly held pointer unless it is dangling.
    #[inline]
    fn visit<T>(&mut self, ptr: &mut GcPtr<T>)
        requires
            old(self).well_formed(),
        ensures
            final(self).well_formed(),
            final(self).heap_view() == (if old(ptr).is_dangling_spec() {
                old(self).heap_view()
            } else {
                old(self).heap_view().mark_one(old(ptr)@)
            }),
            final(self).weak_seen() == old(self).weak_seen(),
            final(ptr)@ == old(ptr)@,
    {
        if !ptr.is_dangling() {
            self.visit_raw(ptr.as_non_null());
        }
    }

    /// Reports a weakly held pointer unless it is dangling.
    #[inline]
    fn visit_weak<T>(&mut self, ptr: &mut GcPtr<T>)
        requires
            old(self).well_formed(),
        ensures
            final(self).well_formed(),
            final(self).heap_view() == old(self).heap_view(),
            final(self).weak_seen() == (if old(ptr).is_dangling_spec() {
                old(self).weak_seen()
            } else {
                old(self).weak_seen().push(old(ptr)@)
            }),
            final(ptr)@ == old(ptr)@,
    {
        if !ptr.is_dangling() {
            self.visit_weak_raw(ptr.as_non_null());
        }
    }

    /// Reports a strongly held pointer that may be absent.
    #[inline]
    fn visit_opt<T>(&mut self, ptr: &mut Option<GcPtr<T>>)
        requires
            old(self).well_formed(),
        ensures
            final(self).well_formed(),
            final(self).heap_view() == (match *old(ptr) {
                Some(p) if !p.is_dangling_spec() => old(self).heap_view().mark_one(p@),
                _ => old(self).heap_view(),
            }),
            final(self).weak_seen() == old(self).weak_seen(),
            final(ptr).is_some() == old(ptr).is_some(),
            old(ptr).is_some() ==> final(ptr).unwrap()@ == old(ptr).unwrap()@,
    {
        if let Some(p) = ptr {
            self.visit(p);
        }
    }

    /// Reports a weakly held pointer that may be absent.
    #[inline]
    fn visit_weak_opt<T>(&mut self, ptr: &mut Option<GcPtr<T>>)
        requires
            old(self).well_formed(),
        ensures
            final(self).well_formed(),
            final(self).heap_view() == old(self).heap_view(),
            final(self).weak_seen() == (match *old(ptr) {
                Some(p) if !p.is_dangling_spec() => old(self).weak_seen().push(p@),
                _ => old(self).weak_seen(),
            }),
            final(ptr).is_some() == old(ptr).is_some(),
            old(ptr).is_some() ==> final(ptr).unwrap()@ == old(ptr).unwrap()@,
    {
        if let Some(p) = ptr {
            self.visit_weak(p);
        }
    }
}

/// What the embedder provides to the collector: its roots, the pointers inside
/// each object, and the handling of weak references.
///
/// The collector relies on the contracts of these methods: an implementation
/// reports the pointers of its [`graph`](GcContext::graph), one after the other.
pub trait GcContext {
    /// The pointers that the embedder holds.
    spec fn graph(&self) -> ObjectGraph;

    /// Reports every root to `visitor`.
    fn visit_roots<V: GcVisitor>(&mut self, visitor: &mut V)
        requires
            old(visitor).well_formed(),
        ensures
            final(visitor).well_formed(),
            final(visitor).heap_view() == old(visitor).heap_view().mark_all(
                old(self).graph().roots,
            ),
            final(self).graph() == old(self).graph(),
    ;

    /// Reports to `visitor` every strong pointer stored in the object body at `object_ptr`.
    fn trace_object<V: GcVisitor>(&mut self, object_ptr: usize, visitor: &mut V)
        requires
            old(visitor).well_formed(),
        ensures
            final(visitor).well_formed(),
            final(visitor).heap_view() == old(visitor).heap_view().mark_all(
                old(self).graph().out_edges(object_ptr),
            ),
            final(self).graph() == old(self).graph(),
    ;

    /// Clears the weak references whose targets did not survive marking. Called
    /// once per cycle, after marking and before sweeping; `heap` answers whether
    /// an object is alive.
    fn process_weak_refs(&mut self, heap: &Heap)
        requires
            heap.wf(),
    {
    }

    /// The address of the embedder's context, which every header records. It is
    /// 8-byte aligned.
    fn as_context_ptr(&mut self) -> (ptr: usize)
        ensures
            ptr % 8 == 0,
            final(self).graph() == old(self).graph(),
    ;
}

} // verus!
