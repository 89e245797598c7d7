//! Accessors: the heap items that hold the getter and the setter of a property.

use crate::gc_header::GcHeader;
use crate::heap::AllocResult;
use crate::heap_model::{lemma_mark_all_concat, lemma_mark_all_single};
use crate::runtime::context::Context;
use crate::runtime::gc::heap::Heap;
use crate::runtime::gc::heap_item::{
    descriptor_edge, words_of, BodyView, HeapItemBody, IsHeapItem, ItemView, Slot, SlotView,
};
use crate::runtime::gc::pointer::HeapPtr;
use crate::runtime::heap_item_descriptor::{HeapItemDescriptor, HeapItemKind};
use crate::runtime::stack::handle::{CellView, StackRoot};
use crate::pointer::Trace;
use crate::runtime::gc::heap_visitor::GcVisitorExt;
use crate::runtime::value::{is_pointer_bits, ObjectValue, Value, EMPTY_BITS};
use crate::visitor::GcVisitor;
use vstd::prelude::*;

verus! {

/// The value of an accessor property: a getter, a setter, or both.
pub struct Accessor {
    /// The descriptor of the accessor.
    pub descriptor: HeapPtr<HeapItemDescriptor>,
    /// The getter, an object that can be called.
    pub get: Option<HeapPtr<ObjectValue>>,
    /// The setter, an object that can be called.
    pub set: Option<HeapPtr<ObjectValue>>,
}

impl IsHeapItem for Accessor {

}

/// An optional pointer as a run of pointers: empty if it is absent or dangling.
pub open spec fn optional_edge<T>(ptr: Option<HeapPtr<T>>) -> Seq<usize> {
    match ptr {
        Some(p) if !p.is_dangling_spec() => seq![p@],
        _ => Seq::empty(),
    }
}

impl Trace for Accessor {
    /// An accessor holds its descriptor, its getter and its setter, all of them strongly.
    open spec fn traced(&self) -> Seq<usize> {
        descriptor_edge(self.descriptor@) + optional_edge(self.get) + optional_edge(self.set)
    }

    open spec fn traced_weak(&self) -> Seq<usize> {
        Seq::empty()
    }

    /// Reports the descriptor, the getter and the setter, in this order, and
    /// leaves the accessor as it is.
    fn trace<V: GcVisitor>(&mut self, visitor: &mut V)
        ensures
            final(self).descriptor@ == old(self).descriptor@,
            final(self).get == old(self).get,
            final(self).set == old(self).set,
    {
        let ghost start = visitor.heap_view();
        let ghost first = descriptor_edge(self.descriptor@);
        let ghost second = optional_edge(self.get);
        let ghost third = optional_edge(self.set);
        proof {
            lemma_mark_all_single(start, self.descriptor@);
        }
        visitor.visit_pointer(&self.descriptor);
        let ghost after_first = visitor.heap_view();
        proof {
            assert(after_first == start.mark_all(first));
            if self.get.is_some() {
                lemma_mark_all_single(after_first, self.get.unwrap()@);
            } else {
                lemma_mark_all_single(after_first, 0);
            }
        }
        visitor.visit_pointer_opt(&self.get);
        let ghost after_second = visitor.heap_view();
        proof {
            assert(after_second == after_first.mark_all(second));
            if self.set.is_some() {
                lemma_mark_all_single(after_second, self.set.unwrap()@);
            } else {
                lemma_mark_all_single(after_second, 0);
            }
        }
        visitor.visit_pointer_opt(&self.set);
        proof {
            assert(visitor.heap_view() == after_second.mark_all(third));
            lemma_mark_all_concat(start, first, second);
            lemma_mark_all_concat(start, first + second, third);
            assert(old(visitor).weak_seen() + Seq::<usize>::empty() =~= old(visitor).weak_seen());
        }
    }
}

/// The word that stands in a slot for an optional pointer.
pub open spec fn optional_word(contents: Option<usize>) -> usize {
    match contents {
        Some(word) => word,
        None => EMPTY_BITS,
    }
}

impl Accessor {
    /// What the cell of an optional root holds, as the word of a slot.
    fn slot_of(cx: &Context, root: &Option<StackRoot<ObjectValue>>) -> (value: Value)
        requires
            cx.handle_context.wf(),
        ensures
            value@ == (match *root {
                Some(root) => optional_word(cx.handle_context.contents_at(root@)),
                None => EMPTY_BITS,
            }),
    {
        match root {
            Some(root) => match root.get(&cx.handle_context) {
                Some(contents) => Value::from_raw_bits(contents),
                None => Value::empty(),
            },
            None => Value::empty(),
        }
    }

    /// Allocates an accessor with the given getter and setter and roots it in a
    /// new cell. The item has two slots: the getter and the setter, each the
    /// pointer that the cell of the root holds, or the empty value, held strongly.
    pub fn new(
        cx: &mut Context,
        get: Option<StackRoot<ObjectValue>>,
        set: Option<StackRoot<ObjectValue>>,
    ) -> (result: AllocResult<StackRoot<Accessor>>)
        requires
            old(cx).wf(),
            old(cx).handle_context.has_room(),
            HeapItemKind::Accessor.index_spec() < old(cx).base_descriptors@.len(),
        ensures
            final(cx).wf(),
            final(cx).base_descriptors == old(cx).base_descriptors,
            final(cx).rust_vtables == old(cx).rust_vtables,
            final(cx).address == old(cx).address,
            final(cx).handle_context.room() + final(cx).handle_context@.len() == old(
                cx,
            ).handle_context.room() + old(cx).handle_context@.len(),
            result.is_ok() == old(cx).heap.gc_view().can_alloc(24),
            ({
                let get_word = match get {
                    Some(root) => optional_word(old(cx).handle_context.contents_at(root@)),
                    None => EMPTY_BITS,
                };
                let set_word = match set {
                    Some(root) => optional_word(old(cx).handle_context.contents_at(root@)),
                    None => EMPTY_BITS,
                };
                let address = (old(cx).heap.gc_view().next_address + GcHeader::SIZE) as usize;
                let before = Heap::before_alloc(
                    old(cx).heap.gc_view(),
                    old(cx).graph(),
                    old(cx).heap.stress(),
                );
                match result {
                    Ok(root) => {
                        &&& exists|context: usize|
                            context % 8 == 0 && final(cx).heap.gc_view()
                                == #[trigger] before.allocate(24, context)
                        &&& final(cx).items@ == old(cx).items@.insert(
                            address,
                            ItemView {
                                descriptor: old(cx).base_descriptors@[HeapItemKind::Accessor.index_spec()],
                                body: BodyView::Slots(
                                    seq![
                                        SlotView { word: get_word, weak: false },
                                        SlotView { word: set_word, weak: false },
                                    ],
                                ),
                            },
                        )
                        &&& final(cx).handle_context@ == old(cx).handle_context@.push(
                            CellView { address: root@, contents: address },
                        )
                    },
                    Err(_) => {
                        &&& final(cx).heap.gc_view() == before.collected(old(cx).graph())
                        &&& final(cx).items@ == old(cx).items@
                        &&& final(cx).handle_context == old(cx).handle_context
                    },
                }
            }),
    {
        proof {
            cx.heap.lemma_view_wf();
        }
        let get_value = Self::slot_of(cx, &get);
        let set_value = Self::slot_of(cx, &set);
        let mut slots: Vec<Slot> = Vec::new();
        slots.push(Slot::strong(get_value));
        slots.push(Slot::strong(set_value));
        proof {
            assert(words_of(slots@) =~= seq![
                SlotView { word: get_value@, weak: false },
                SlotView { word: set_value@, weak: false },
            ]);
        }
        match cx.alloc_item(HeapItemKind::Accessor, HeapItemBody::Slots(slots)) {
            Ok(accessor) => Ok(accessor.cast::<Accessor>().to_stack(cx)),
            Err(error) => Err(error),
        }
    }

    /// The root of a value that holds an accessor as the root of the accessor.
    pub fn from_value(value: StackRoot<Value>) -> (root: StackRoot<Accessor>)
        ensures
            root@ == value@,
    {
        value.cast::<Accessor>()
    }

    /// Reads the accessor at `ptr`: `None` unless there is an item with two
    /// slots at `ptr`. A slot that holds no pointer stands for no function.
    pub fn load(cx: &Context, ptr: HeapPtr<Accessor>) -> (accessor: Option<Accessor>)
        requires
            cx.wf(),
        ensures
            accessor.is_some() == (cx.items@.contains_key(ptr@) && match cx.items@[ptr@].body {
                BodyView::Slots(slots) => slots.len() == 2,
                _ => false,
            }),
            accessor.is_some() ==> match cx.items@[ptr@].body {
                BodyView::Slots(slots) => {
                    &&& accessor.unwrap().descriptor@ == cx.items@[ptr@].descriptor
                    &&& accessor.unwrap().get.is_some() == is_pointer_bits(slots[0].word)
                    &&& accessor.unwrap().set.is_some() == is_pointer_bits(slots[1].word)
                    &&& accessor.unwrap().get.is_some() ==> accessor.unwrap().get.unwrap()@
                        == slots[0].word
                    &&& accessor.unwrap().set.is_some() ==> accessor.unwrap().set.unwrap()@
                        == slots[1].word
                },
                _ => false,
            },
    {
        match cx.items.get(ptr.as_ptr()) {
            Some(item) => match (item.slot(0), item.slot(1), item.slot(2)) {
                (Some(get), Some(set), None) => Some(
                    Accessor {
                        descriptor: item.descriptor(),
                        get: if get.value.is_pointer() {
                            Some(get.value.as_pointer())
                        } else {
                            None
                        },
                        set: if set.value.is_pointer() {
                            Some(set.value.as_pointer())
                        } else {
                            None
                        },
                    },
                ),
                _ => None,
            },
            None => None,
        }
    }
}

} // verus!
