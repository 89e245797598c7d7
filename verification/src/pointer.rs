//! Pointers to managed objects.
//!
//! A [`GcPtr`] is the address of an object body. It does not keep the object
//! alive: hold it across a collection point only if the object is rooted.

use crate::visitor::GcVisitor;
use std::marker::PhantomData;
use vstd::prelude::*;

verus! {

/// The address that stands for "points at nothing yet".
pub const DANGLING_ADDRESS: usize = 8;

/// The address of the body of a managed object of type `T`.
pub struct GcPtr<T> {
    ptr: usize,
    phantom_data: PhantomData<T>,
}

impl<T> View for GcPtr<T> {
    type V = usize;

    /// The address held.
    closed spec fn view(&self) -> usize {
        self.ptr
    }
}

impl<T> GcPtr<T> {
    /// Whether the pointer holds the dangling address.
    pub open spec fn is_dangling_spec(&self) -> bool {
        self@ == DANGLING_ADDRESS
    }

    /// The address held.
    #[inline]
    pub fn as_ptr(&self) -> (ptr: usize)
        ensures
            ptr == self@,
    {
        self.ptr
    }

    /// A pointer to the object body at `ptr`.
    #[inline]
    pub fn from_ptr(ptr: usize) -> (gc_ptr: GcPtr<T>)
        ensures
            gc_ptr@ == ptr,
    {
        GcPtr { ptr, phantom_data: PhantomData }
    }

    /// A pointer to the object body at the address `ptr`.
    #[inline]
    pub fn from_non_null(ptr: usize) -> (gc_ptr: GcPtr<T>)
        ensures
            gc_ptr@ == ptr,
    {
        GcPtr { ptr, phantom_data: PhantomData }
    }

    /// Whether both pointers hold the same address.
    #[inline]
    pub fn ptr_eq(&self, other: &Self) -> (same: bool)
        ensures
            same == (self@ == other@),
    {
        self.ptr == other.ptr
    }

    /// The same address as a pointer to another type.
    #[inline]
    pub fn cast<U>(&self) -> (gc_ptr: GcPtr<U>)
        ensures
            gc_ptr@ == self@,
    {
        GcPtr { ptr: self.ptr, phantom_data: PhantomData }
    }

    /// Retypes the pointer in place.
    #[inline]
    pub fn cast_mut<U>(self) -> (gc_ptr: GcPtr<U>)
        ensures
            gc_ptr@ == self@,
    {
        GcPtr { ptr: self.ptr, phantom_data: PhantomData }
    }

    /// A pointer that points at nothing yet.
    #[inline]
    pub fn dangling() -> (gc_ptr: GcPtr<T>)
        ensures
            gc_ptr@ == DANGLING_ADDRESS,
            gc_ptr.is_dangling_spec(),
    {
        GcPtr { ptr: DANGLING_ADDRESS, phantom_data: PhantomData }
    }

    /// Another name for [`GcPtr::dangling`].
    #[inline]
    pub fn uninit() -> (gc_ptr: GcPtr<T>)
        ensures
            gc_ptr@ == DANGLING_ADDRESS,
            gc_ptr.is_dangling_spec(),
    {
        Self::dangling()
    }

    /// Whether this pointer points at nothing yet.
    #[inline]
    pub fn is_dangling(&self) -> (dangling: bool)
        ensures
            dangling == self.is_dangling_spec(),
    {
        self.ptr == DANGLING_ADDRESS
    }

    /// The address held.
    #[inline]
    pub fn as_non_null(&self) -> (ptr: usize)
        ensures
            ptr == self@,
    {
        self.ptr
    }
}

impl<T> Clone for GcPtr<T> {
    #[inline]
    fn clone(&self) -> (gc_ptr: Self)
        ensures
            gc_ptr@ == self@,
    {
        GcPtr { ptr: self.ptr, phantom_data: PhantomData }
    }
}

impl<T> Copy for GcPtr<T> {

}

/// The types that hold pointers to managed objects and can report them.
pub trait Trace {
    /// The strongly held pointers of the value, in the order in which they are reported.
    spec fn traced(&self) -> Seq<usize>;

    /// The weakly held pointers of the value, in the order in which they are reported.
    spec fn traced_weak(&self) -> Seq<usize>;

    /// Reports every pointer to a managed object that the value holds: each
    /// strongly held pointer marks its target, each weakly held pointer is
    /// reported as weak.
    fn trace<V: GcVisitor>(&mut self, visitor: &mut V)
        requires
            old(visitor).well_formed(),
        ensures
            final(visitor).well_formed(),
            final(visitor).heap_view() == old(visitor).heap_view().mark_all(old(self).traced()),
            final(visitor).weak_seen() == old(visitor).weak_seen() + old(self).traced_weak(),
    ;
}

} // verus!
