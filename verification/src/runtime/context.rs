//! The context of one runtime: its heap, its stack of root cells, the bodies
//! of its heap items and the tables of descriptors and dispatch tables.

use crate::gc_header::GcHeader;
use crate::heap::{AllocError, AllocResult};
use crate::heap_model::{lemma_start_wf, ObjectGraph};
use crate::laws::{law_cycle_ends, law_reachable_objects_survive};
use crate::runtime::gc::heap::Heap;
use crate::runtime::gc::heap_item::{
    edges_of, has_slot, has_strong_slot, with_slot, words_of, AnyHeapItem, BodyView,
    HeapItemBody, HeapItems, ItemView,
};
use crate::runtime::value::{is_pointer_bits, Value};
use crate::runtime::gc::pointer::HeapPtr;
use crate::runtime::heap_item_descriptor::HeapItemKind;
use crate::runtime::heap_item_descriptor::BaseDescriptors;
use crate::runtime::rust_vtables::RustVtables;
use crate::runtime::stack::handle::{max_blocks, StackRootContext, HANDLE_BLOCK_SIZE};
use vstd::prelude::*;

verus! {

/// The pointers of a runtime as the collector sees them: the descriptors and
/// the pointers in the live root cells are the roots, and every item holds
/// the strong pointers that tracing reports for it.
pub open spec fn runtime_graph(
    base_descriptors: &BaseDescriptors,
    handle_context: &StackRootContext,
    items: &HeapItems,
) -> ObjectGraph {
    ObjectGraph {
        roots: base_descriptors.root_pointers() + handle_context.root_pointers(),
        edges: Map::total(|object_ptr: usize| edges_of(items@, object_ptr)),
    }
}

/// What a body holds.
pub open spec fn body_view(body: HeapItemBody) -> BodyView {
    match body {
        HeapItemBody::Descriptor(fields) => BodyView::Descriptor(fields@),
        HeapItemBody::Slots(slots) => BodyView::Slots(words_of(slots@)),
        HeapItemBody::Bytes(bytes) => BodyView::Bytes(bytes@),
    }
}

/// The state of one runtime.
pub struct Context {
    /// The managed heap.
    pub heap: Heap,
    /// The stack of root cells.
    pub handle_context: StackRootContext,
    /// The descriptors of all kinds.
    pub base_descriptors: BaseDescriptors,
    /// The bodies of the heap items.
    pub items: HeapItems,
    /// The addresses of the dispatch tables.
    pub rust_vtables: RustVtables,
    /// The address by which the headers of the heap items name this context.
    pub address: usize,
}

impl Context {
    /// The invariant of a context: that of each of its parts.
    pub open spec fn wf(&self) -> bool {
        &&& self.heap.wf()
        &&& self.handle_context.wf()
        &&& self.items.wf()
        &&& self.rust_vtables.wf()
    }

    /// The pointers of the runtime as the collector sees them.
    pub open spec fn graph(&self) -> ObjectGraph {
        runtime_graph(&self.base_descriptors, &self.handle_context, &self.items)
    }

    /// Whether `self` differs from `before` in its heap at most.
    pub open spec fn same_but_heap(&self, before: &Context) -> bool {
        &&& self.handle_context == before.handle_context
        &&& self.base_descriptors == before.base_descriptors
        &&& self.items == before.items
        &&& self.rust_vtables == before.rust_vtables
        &&& self.address == before.address
    }

    /// Whether `self` differs from `before` in its stack of root cells at most.
    pub open spec fn same_but_handles(&self, before: &Context) -> bool {
        &&& self.heap == before.heap
        &&& self.base_descriptors == before.base_descriptors
        &&& self.items == before.items
        &&& self.rust_vtables == before.rust_vtables
        &&& self.address == before.address
    }

    /// Whether `self` differs from `before` in its heap and in the bodies of its
    /// items at most.
    pub open spec fn same_but_heap_and_items(&self, before: &Context) -> bool {
        &&& self.handle_context == before.handle_context
        &&& self.base_descriptors == before.base_descriptors
        &&& self.rust_vtables == before.rust_vtables
        &&& self.address == before.address
        &&& self.heap.stress() == before.heap.stress()
    }

    /// Allocates a heap item of kind `kind` with the body `body` and returns its
    /// address. The item gets the descriptor of its kind from the table of
    /// descriptors.
    ///
    /// The allocation is that of [`Heap::alloc_uninit_with_size`] for the size
    /// of the item. It fails without touching the heap if that size does not
    /// fit in a word.
    pub fn alloc_item(&mut self, kind: HeapItemKind, body: HeapItemBody) -> (result: AllocResult<
        HeapPtr<AnyHeapItem>,
    >)
        requires
            old(self).wf(),
            kind.index_spec() < old(self).base_descriptors@.len(),
        ensures
            final(self).wf(),
            final(self).same_but_heap_and_items(old(self)),
            ({
                let item = ItemView {
                    descriptor: old(self).base_descriptors@[kind.index_spec()],
                    body: body_view(body),
                };
                let size = item.body_byte_size();
                let before = Heap::before_alloc(
                    old(self).heap.gc_view(),
                    old(self).graph(),
                    old(self).heap.stress(),
                );
                &&& result.is_ok() == (size <= usize::MAX && old(self).heap.gc_view().can_alloc(
                    size as usize,
                ))
                &&& match result {
                    Ok(ptr) => {
                        &&& ptr@ == old(self).heap.gc_view().next_address + GcHeader::SIZE
                        &&& final(self).items@ == old(self).items@.insert(ptr@, item)
                        &&& exists|context: usize|
                            context % 8 == 0 && final(self).heap.gc_view()
                                == #[trigger] before.allocate(size as usize, context)
                    },
                    Err(_) => {
                        &&& final(self).items@ == old(self).items@
                        &&& final(self).heap.gc_view() == (if size <= usize::MAX {
                            before.collected(old(self).graph())
                        } else {
                            old(self).heap.gc_view()
                        })
                    },
                }
            }),
    {
        let fits = match &body {
            HeapItemBody::Descriptor(_) => true,
            HeapItemBody::Slots(slots) => slots.len() <= (usize::MAX - 8) / 8,
            HeapItemBody::Bytes(bytes) => bytes.len() <= usize::MAX - 8,
        };
        let item = AnyHeapItem::new(self.base_descriptors.get(kind), body);
        if !fits {
            return Err(AllocError);
        }
        let size = item.body_byte_size();
        match Heap::alloc_uninit_with_size::<AnyHeapItem>(self, size) {
            Ok(ptr) => {
                self.items.insert(ptr.as_ptr(), item);
                Ok(ptr)
            },
            Err(error) => Err(error),
        }
    }

    /// Stores `value` into the slot at `index` of the item at `item`, with the
    /// write barrier: if the slot is strong and the value holds a pointer, the
    /// barrier is called for its target, so that a store into an item that has
    /// been scanned already cannot hide the target from the collector. A store
    /// into a weak slot needs no barrier. Says whether there is such a slot;
    /// without one nothing happens.
    pub fn write_slot(&mut self, item: HeapPtr<AnyHeapItem>, index: usize, value: Value) -> (written:
        bool)
        requires
            old(self).wf(),
        ensures
            final(self).wf(),
            final(self).same_but_heap_and_items(old(self)),
            written == has_slot(old(self).items@, item@, index as int),
            final(self).items@ == (if written {
                old(self).items@.insert(
                    item@,
                    with_slot(old(self).items@[item@], index as int, value@),
                )
            } else {
                old(self).items@
            }),
            final(self).heap.gc_view() == (if has_strong_slot(
                old(self).items@,
                item@,
                index as int,
            ) && is_pointer_bits(value@) {
                old(self).heap.gc_view().write_barrier(value@)
            } else {
                old(self).heap.gc_view()
            }),
    {
        let strong = match self.items.get(item.as_ptr()) {
            Some(found) => match found.slot(index) {
                Some(slot) => !slot.weak,
                None => false,
            },
            None => false,
        };
        let written = self.items.set_slot(item.as_ptr(), index, value);
        if strong && value.is_pointer() {
            self.heap.write_barrier(value.as_raw_bits());
        }
        written
    }

    /// An item that a live root cell points to survives a whole collection, at
    /// its address, if the collection is started on an idle heap whose objects
    /// are all white.
    pub proof fn law_rooted_items_survive(&self, i: int)
        requires
            self.wf(),
            !self.heap.gc_view().gc_in_progress(),
            self.heap.gc_view().all_white(),
            0 <= i < self.handle_context@.len(),
            is_pointer_bits(self.handle_context@[i].contents),
            self.heap.gc_view().manages(self.handle_context@[i].contents),
        ensures
            self.heap.gc_view().collected(self.graph()).manages(self.handle_context@[i].contents),
    {
        let h = self.heap.gc_view();
        let graph = self.graph();
        let word = self.handle_context@[i].contents;
        self.heap.lemma_view_wf();
        self.handle_context.lemma_roots_are_the_live_pointers(word);
        let cell_roots = self.handle_context.root_pointers();
        let k = choose|k: int| 0 <= k < cell_roots.len() && cell_roots[k] == word;
        assert(graph.roots[self.base_descriptors.root_pointers().len() + k] == word);
        let path = seq![word];
        assert(path[0] == word);
        assert(graph.is_path(h, path));
        assert(path.last() == word);
        lemma_start_wf(h, graph.roots);
        law_cycle_ends(h.start(graph.roots), graph);
        law_reachable_objects_survive(
            h,
            graph,
            h.start(graph.roots).steps_to_idle(graph),
            word,
        );
    }

    /// A context with an empty heap, no root cell, no item and no descriptor yet.
    pub fn new(rust_vtables: RustVtables, address: usize) -> (cx: Context)
        requires
            rust_vtables.wf(),
        ensures
            cx.wf(),
            cx.heap.gc_view() == crate::heap_model::HeapView::empty(),
            !cx.heap.stress(),
            cx.handle_context@.len() == 0,
            cx.handle_context.room() == HANDLE_BLOCK_SIZE * max_blocks(),
            cx.items@ == Map::<usize, ItemView>::empty(),
            cx.base_descriptors@.len() == 0,
            cx.rust_vtables == rust_vtables,
            cx.address == address,
    {
        Context {
            heap: Heap::new(0),
            handle_context: StackRootContext::new(),
            base_descriptors: BaseDescriptors::uninit_empty(),
            items: HeapItems::new(),
            rust_vtables,
            address,
        }
    }
}

} // verus!
