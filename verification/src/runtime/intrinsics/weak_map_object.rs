//! The hash table of a weak map: its keys and values are held weakly.

use crate::runtime::gc::heap_item::{descriptor_edge, AnyHeapItem};
use crate::runtime::gc::heap_visitor::GcVisitorExt;
use crate::runtime::heap_item_descriptor::HeapItemKind;
use crate::visitor::GcVisitor;
use vstd::prelude::*;

verus! {

/// The field of a weak map object that holds its hash table.
pub struct WeakMapObjectMapField;

impl WeakMapObjectMapField {
    /// The size in bytes of the hash table `map`.
    pub fn byte_size(map: &AnyHeapItem) -> (size: usize)
        requires
            map.wf(),
        ensures
            size == map@.byte_size_for_kind(HeapItemKind::WeakMapObjectWeakValueMap),
    {
        map.body_byte_size()
    }

    /// Reports the pointers of the hash table `map`: the pointer to its
    /// descriptor is strong; the keys and the values in its slots are weak and
    /// keep nothing alive.
    pub fn visit_pointers<V: GcVisitorExt>(map: &AnyHeapItem, visitor: &mut V)
        requires
            old(visitor).well_formed(),
        ensures
            final(visitor).well_formed(),
            final(visitor).heap_view() == old(visitor).heap_view().mark_all(
                descriptor_edge(map@.descriptor),
            ),
            final(visitor).weak_seen() == old(visitor).weak_seen()
                + map@.weak_pointers_for_kind(HeapItemKind::WeakMapObjectWeakValueMap),
    {
        proof {
            assert(map@.pointers_for_kind(HeapItemKind::WeakMapObjectWeakValueMap)
                =~= descriptor_edge(map@.descriptor));
        }
        map.visit_pointers_for_kind(visitor, HeapItemKind::WeakMapObjectWeakValueMap);
    }
}

} // verus!
