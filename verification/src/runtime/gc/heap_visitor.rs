//! Visitor helpers for the runtime's own types: heap pointers, tagged values
//! and property keys.

use crate::runtime::gc::pointer::HeapPtr;
use crate::runtime::value::{is_pointer_bits, Value};
use crate::visitor::GcVisitor;
use vstd::prelude::*;

verus! {

/// The helpers that every visitor has for the types of the runtime.
pub trait GcVisitorExt: GcVisitor {
    /// Visits the address of a dispatch table. Such tables are not on the heap,
    /// so nothing is reported.
    #[inline]
    fn visit_rust_vtable_pointer(&mut self, ptr: usize)
        requires
            old(self).well_formed(),
        ensures
            final(self).well_formed(),
            final(self).heap_view() == old(self).heap_view(),
            final(self).weak_seen() == old(self).weak_seen(),
    {
    }

    /// Reports a strongly held heap pointer unless it is dangling.
    #[inline]
    fn visit_pointer<T>(&mut self, ptr: &HeapPtr<T>)
        requires
            old(self).well_formed(),
        ensures
            final(self).well_formed(),
            final(self).heap_view() == (if ptr.is_dangling_spec() {
                old(self).heap_view()
            } else {
                old(self).heap_view().mark_one(ptr@)
            }),
            final(self).weak_seen() == old(self).weak_seen(),
    {
        if !ptr.is_dangling() {
            self.visit_raw(ptr.as_non_null());
        }
    }

    /// Reports a weakly held heap pointer unless it is dangling.
    #[inline]
    fn visit_weak_pointer<T>(&mut self, ptr: &HeapPtr<T>)
        requires
            old(self).well_formed(),
        ensures
            final(self).well_formed(),
            final(self).heap_view() == old(self).heap_view(),
            final(self).weak_seen() == (if ptr.is_dangling_spec() {
                old(self).weak_seen()
            } else {
                old(self).weak_seen().push(ptr@)
            }),
    {
        if !ptr.is_dangling() {
            self.visit_weak_raw(ptr.as_non_null());
        }
    }

    /// Reports a strongly held heap pointer that may be absent.
    #[inline]
    fn visit_pointer_opt<T>(&mut self, ptr: &Option<HeapPtr<T>>)
        requires
            old(self).well_formed(),
        ensures
            final(self).well_formed(),
            final(self).heap_view() == (match *ptr {
                Some(p) if !p.is_dangling_spec() => old(self).heap_view().mark_one(p@),
                _ => old(self).heap_view(),
            }),
            final(self).weak_seen() == old(self).weak_seen(),
    {
        if let Some(p) = ptr {
            self.visit_pointer(p);
        }
    }

    /// Reports a strongly held value if it holds a pointer.
    #[inline]
    fn visit_value(&mut self, value: &Value)
        requires
            old(self).well_formed(),
        ensures
            final(self).well_formed(),
            final(self).heap_view() == (if is_pointer_bits(value@) {
                old(self).heap_view().mark_one(value@)
            } else {
                old(self).heap_view()
            }),
            final(self).weak_seen() == old(self).weak_seen(),
    {
        if value.is_pointer() {
            self.visit_raw(value.as_raw_bits());
        }
    }

    /// Reports a weakly held value if it holds a pointer.
    #[inline]
    fn visit_weak_value(&mut self, value: &Value)
        requires
            old(self).well_formed(),
        ensures
            final(self).well_formed(),
            final(self).heap_view() == old(self).heap_view(),
            final(self).weak_seen() == (if is_pointer_bits(value@) {
                old(self).weak_seen().push(value@)
            } else {
                old(self).weak_seen()
            }),
    {
        if value.is_pointer() {
            self.visit_weak_raw(value.as_raw_bits());
        }
    }

    /// Reports a strongly held property key, which is a value.
    #[inline]
    fn visit_property_key(&mut self, property_key: &Value)
        requires
            old(self).well_formed(),
        ensures
            final(self).well_formed(),
            final(self).heap_view() == (if is_pointer_bits(property_key@) {
                old(self).heap_view().mark_one(property_key@)
            } else {
                old(self).heap_view()
            }),
            final(self).weak_seen() == old(self).weak_seen(),
    {
        self.visit_value(property_key);
    }
}

impl<T: GcVisitor> GcVisitorExt for T {

}

} // verus!
