//! The runtime's pointer to a heap item.

use crate::pointer::{GcPtr, DANGLING_ADDRESS};
use vstd::prelude::*;

verus! {

/// A direct pointer to a heap item, such as the pointers that heap items hold
/// to each other. It does not root the item: it may not be held across a
/// collection point unless the item is rooted by other means.
pub struct HeapPtr<T>(pub GcPtr<T>);

impl<T> View for HeapPtr<T> {
    type V = usize;

    /// The address held.
    open spec fn view(&self) -> usize {
        self.0@
    }
}

impl<T> HeapPtr<T> {
    /// Whether the pointer holds the dangling address.
    pub open spec fn is_dangling_spec(&self) -> bool {
        self@ == DANGLING_ADDRESS
    }

    /// The address held.
    #[inline]
    pub fn as_ptr(&self) -> (ptr: usize)
        ensures
            ptr == self@,
    {
        self.0.as_ptr()
    }

    /// A pointer to the heap item at `ptr`.
    #[inline]
    pub fn from_ptr(ptr: usize) -> (heap_ptr: HeapPtr<T>)
        ensures
            heap_ptr@ == ptr,
    {
        HeapPtr(GcPtr::from_ptr(ptr))
    }

    /// Whether both pointers hold the same address.
    #[inline]
    pub fn ptr_eq(&self, other: &Self) -> (same: bool)
        ensures
            same == (self@ == other@),
    {
        self.0.ptr_eq(&other.0)
    }

    /// The same address as a pointer to another type.
    #[inline]
    pub fn cast<U>(&self) -> (heap_ptr: HeapPtr<U>)
        ensures
            heap_ptr@ == self@,
    {
        HeapPtr(self.0.cast())
    }

    /// Retypes the pointer.
    #[inline]
    pub fn cast_mut<U>(self) -> (heap_ptr: HeapPtr<U>)
        ensures
            heap_ptr@ == self@,
    {
        HeapPtr(self.0.cast_mut())
    }

    /// A pointer that points at nothing yet.
    #[inline]
    pub fn uninit() -> (heap_ptr: HeapPtr<T>)
        ensures
            heap_ptr.is_dangling_spec(),
    {
        HeapPtr(GcPtr::uninit())
    }

    /// Whether this pointer points at nothing yet.
    #[inline]
    pub fn is_dangling(&self) -> (dangling: bool)
        ensures
            dangling == self.is_dangling_spec(),
    {
        self.0.is_dangling()
    }

    /// The address held.
    #[inline]
    pub fn as_non_null(&self) -> (ptr: usize)
        ensures
            ptr == self@,
    {
        self.0.as_non_null()
    }

    /// The pointer as the collector knows it.
    #[inline]
    pub fn into_gc_ptr(self) -> (gc_ptr: GcPtr<T>)
        ensures
            gc_ptr@ == self@,
    {
        self.0
    }

    /// The runtime's pointer for a pointer of the collector.
    #[inline]
    pub fn from_gc_ptr(ptr: GcPtr<T>) -> (heap_ptr: HeapPtr<T>)
        ensures
            heap_ptr@ == ptr@,
    {
        HeapPtr(ptr)
    }
}

impl<T> Clone for HeapPtr<T> {
    #[inline]
    fn clone(&self) -> (heap_ptr: Self)
        ensures
            heap_ptr@ == self@,
    {
        HeapPtr(self.0.clone())
    }
}

impl<T> Copy for HeapPtr<T> {

}

} // verus!
