//! Heap items: what the runtime keeps of the body of every item on the heap,
//! and the table switch that traces an item by its kind.

use crate::heap_model::lemma_mark_all_concat;
use crate::pointer::DANGLING_ADDRESS;
use crate::runtime::gc::heap_visitor::GcVisitorExt;
use crate::runtime::gc::pointer::HeapPtr;
use crate::runtime::heap_item_descriptor::{
    DescriptorView, HeapItemDescriptor, HeapItemKind, DESCRIPTOR_BYTE_SIZE,
};
use crate::runtime::value::{is_pointer_bits, Value};
use crate::visitor::GcVisitor;
use std::collections::HashMap;
use vstd::prelude::*;

verus! {

/// One slot of a heap item: a tagged value, held strongly or weakly. A weak
/// slot does not keep its target alive and is not traced.
#[derive(Clone, Copy, Debug, PartialEq, Eq, Structural)]
pub struct Slot {
    /// The value in the slot.
    pub value: Value,
    /// Whether the slot holds its value weakly.
    pub weak: bool,
}

impl Slot {
    /// A slot that holds `value` strongly.
    pub fn strong(value: Value) -> (slot: Slot)
        ensures
            slot == (Slot { value, weak: false }),
    {
        Slot { value, weak: false }
    }

    /// A slot that holds `value` weakly.
    pub fn weak(value: Value) -> (slot: Slot)
        ensures
            slot == (Slot { value, weak: true }),
    {
        Slot { value, weak: true }
    }
}

/// What a slot holds.
pub struct SlotView {
    /// The word of the value in the slot.
    pub word: usize,
    /// Whether the slot holds its value weakly.
    pub weak: bool,
}

/// The body of a heap item behind its descriptor pointer.
pub enum HeapItemBody {
    /// The fields of a descriptor.
    Descriptor(HeapItemDescriptor),
    /// Slots of tagged values: the fields of an object, the elements of an
    /// array of values, the entries of a hash table.
    Slots(Vec<Slot>),
    /// Bytes that hold no pointer: the text of a string, the elements of a byte array.
    Bytes(Vec<u8>),
}

/// What the body of a heap item holds.
pub enum BodyView {
    /// The fields of a descriptor.
    Descriptor(DescriptorView),
    /// The slots.
    Slots(Seq<SlotView>),
    /// The bytes.
    Bytes(Seq<u8>),
}

/// What a heap item holds.
pub struct ItemView {
    /// The address of the descriptor of the item.
    pub descriptor: usize,
    /// The body of the item.
    pub body: BodyView,
}

/// What a run of slots holds.
pub open spec fn words_of(slots: Seq<Slot>) -> Seq<SlotView> {
    Seq::new(slots.len(), |i: int| SlotView { word: slots[i].value@, weak: slots[i].weak })
}

/// The pointers that the strong slots among `slots` hold, in their order.
pub open spec fn strong_pointers(slots: Seq<SlotView>) -> Seq<usize>
    decreases slots.len(),
{
    if slots.len() == 0 {
        Seq::empty()
    } else {
        let rest = strong_pointers(slots.drop_last());
        if !slots.last().weak && is_pointer_bits(slots.last().word) {
            rest.push(slots.last().word)
        } else {
            rest
        }
    }
}

/// The pointer to a descriptor as a run of pointers: empty if it is dangling.
pub open spec fn descriptor_edge(descriptor: usize) -> Seq<usize> {
    if descriptor == DANGLING_ADDRESS {
        Seq::empty()
    } else {
        seq![descriptor]
    }
}

/// The pointers that the weak slots among `slots` hold, in their order.
pub open spec fn weak_pointers(slots: Seq<SlotView>) -> Seq<usize>
    decreases slots.len(),
{
    if slots.len() == 0 {
        Seq::empty()
    } else {
        let rest = weak_pointers(slots.drop_last());
        if slots.last().weak && is_pointer_bits(slots.last().word) {
            rest.push(slots.last().word)
        } else {
            rest
        }
    }
}

/// The pointers that `slots` hold, strong or weak, in their order.
pub open spec fn slot_pointers(slots: Seq<SlotView>) -> Seq<usize>
    decreases slots.len(),
{
    if slots.len() == 0 {
        Seq::empty()
    } else {
        let rest = slot_pointers(slots.drop_last());
        if is_pointer_bits(slots.last().word) {
            rest.push(slots.last().word)
        } else {
            rest
        }
    }
}

impl ItemView {
    /// The size in bytes of the body with its descriptor pointer.
    pub open spec fn body_byte_size(self) -> int {
        match self.body {
            BodyView::Descriptor(_) => DESCRIPTOR_BYTE_SIZE as int,
            BodyView::Slots(slots) => 8 + 8 * slots.len() as int,
            BodyView::Bytes(bytes) => 8 + bytes.len() as int,
        }
    }

    /// The size in bytes of the item, taken as an item of kind `kind`.
    pub open spec fn byte_size_for_kind(self, kind: HeapItemKind) -> int {
        if kind == HeapItemKind::Descriptor {
            DESCRIPTOR_BYTE_SIZE as int
        } else if kind == HeapItemKind::Last {
            0
        } else {
            self.body_byte_size()
        }
    }

    /// The weak pointers of the item in the order in which they are reported,
    /// taken as an item of kind `kind`: none for a descriptor, the pointers in
    /// all slots for a kind that holds all of its slots weakly, and the
    /// pointers in the weak slots for every other kind.
    pub open spec fn weak_pointers_for_kind(self, kind: HeapItemKind) -> Seq<usize> {
        if kind == HeapItemKind::Descriptor {
            Seq::empty()
        } else {
            match self.body {
                BodyView::Slots(slots) => if kind.is_weak_container_spec() {
                    slot_pointers(slots)
                } else {
                    weak_pointers(slots)
                },
                _ => Seq::empty(),
            }
        }
    }

    /// The strong pointers of the item in the order in which they are
    /// reported, taken as an item of kind `kind`: the pointer to the
    /// descriptor, and the pointers in the strong slots unless the kind holds
    /// all of its slots weakly.
    pub open spec fn pointers_for_kind(self, kind: HeapItemKind) -> Seq<usize> {
        descriptor_edge(self.descriptor) + (if kind == HeapItemKind::Descriptor
            || kind.is_weak_container_spec() {
            Seq::empty()
        } else {
            match self.body {
                BodyView::Slots(slots) => strong_pointers(slots),
                _ => Seq::empty(),
            }
        })
    }
}

/// An arbitrary heap item. What all heap items have in common is the pointer
/// to their descriptor, which tells the kind of the item.
pub struct AnyHeapItem {
    descriptor: HeapPtr<HeapItemDescriptor>,
    body: HeapItemBody,
}

impl View for AnyHeapItem {
    type V = ItemView;

    closed spec fn view(&self) -> ItemView {
        ItemView {
            descriptor: self.descriptor@,
            body: match self.body {
                HeapItemBody::Descriptor(fields) => BodyView::Descriptor(fields@),
                HeapItemBody::Slots(slots) => BodyView::Slots(words_of(slots@)),
                HeapItemBody::Bytes(bytes) => BodyView::Bytes(bytes@),
            },
        }
    }
}

impl AnyHeapItem {
    /// The invariant of an item: its size fits in a word.
    pub open spec fn wf(&self) -> bool {
        self@.body_byte_size() <= usize::MAX
    }

    /// An item with the given descriptor and body.
    pub fn new(descriptor: HeapPtr<HeapItemDescriptor>, body: HeapItemBody) -> (item: AnyHeapItem)
        ensures
            item@.descriptor == descriptor@,
            item@.body == (match body {
                HeapItemBody::Descriptor(fields) => BodyView::Descriptor(fields@),
                HeapItemBody::Slots(slots) => BodyView::Slots(words_of(slots@)),
                HeapItemBody::Bytes(bytes) => BodyView::Bytes(bytes@),
            }),
    {
        AnyHeapItem { descriptor, body }
    }

    /// The pointer to the descriptor of the item.
    pub fn descriptor(&self) -> (descriptor: HeapPtr<HeapItemDescriptor>)
        ensures
            descriptor@ == self@.descriptor,
    {
        self.descriptor
    }

    /// Sets the pointer to the descriptor of the item.
    pub fn set_descriptor(&mut self, descriptor: HeapPtr<HeapItemDescriptor>)
        ensures
            final(self)@ == (ItemView { descriptor: descriptor@, body: old(self)@.body }),
    {
        self.descriptor = descriptor;
    }

    /// The body of the item.
    pub fn body(&self) -> (body: &HeapItemBody)
        ensures
            self@.body == (match *body {
                HeapItemBody::Descriptor(fields) => BodyView::Descriptor(fields@),
                HeapItemBody::Slots(slots) => BodyView::Slots(words_of(slots@)),
                HeapItemBody::Bytes(bytes) => BodyView::Bytes(bytes@),
            }),
    {
        &self.body
    }

    /// Puts `value` into the slot at `index` and says whether there is such a
    /// slot. The slot stays strong or weak as it is.
    pub fn set_slot(&mut self, index: usize, value: Value) -> (written: bool)
        ensures
            written == (match old(self)@.body {
                BodyView::Slots(slots) => index < slots.len(),
                _ => false,
            }),
            final(self)@ == (if written {
                with_slot(old(self)@, index as int, value@)
            } else {
                old(self)@
            }),
            old(self).wf() ==> final(self).wf(),
    {
        match &mut self.body {
            HeapItemBody::Slots(slots) => {
                if index < slots.len() {
                    let ghost before = slots@;
                    let weak = slots[index].weak;
                    slots[index] = Slot { value, weak };
                    proof {
                        assert(words_of(slots@) =~= words_of(before).update(
                            index as int,
                            SlotView { word: value@, weak },
                        ));
                    }
                    true
                } else {
                    false
                }
            },
            _ => false,
        }
    }

    /// The slot at `index`, if there is such a slot.
    pub fn slot(&self, index: usize) -> (slot: Option<Slot>)
        ensures
            slot.is_some() == (match self@.body {
                BodyView::Slots(slots) => index < slots.len(),
                _ => false,
            }),
            slot.is_some() ==> (match self@.body {
                BodyView::Slots(slots) => slot.unwrap().value@ == slots[index as int].word
                    && slot.unwrap().weak == slots[index as int].weak,
                _ => false,
            }),
    {
        match &self.body {
            HeapItemBody::Slots(slots) => {
                if index < slots.len() {
                    Some(slots[index])
                } else {
                    None
                }
            },
            _ => None,
        }
    }

    /// The size in bytes of the body with its descriptor pointer.
    pub fn body_byte_size(&self) -> (size: usize)
        requires
            self.wf(),
        ensures
            size == self@.body_byte_size(),
    {
        match &self.body {
            HeapItemBody::Descriptor(_) => DESCRIPTOR_BYTE_SIZE,
            HeapItemBody::Slots(slots) => 8 + 8 * slots.len(),
            HeapItemBody::Bytes(bytes) => 8 + bytes.len(),
        }
    }

    /// Reports the pointer to the descriptor.
    fn visit_descriptor_pointer<V: GcVisitorExt>(&self, visitor: &mut V)
        requires
            old(visitor).well_formed(),
        ensures
            final(visitor).well_formed(),
            final(visitor).heap_view() == old(visitor).heap_view().mark_all(
                descriptor_edge(self@.descriptor),
            ),
            final(visitor).weak_seen() == old(visitor).weak_seen(),
    {
        let ghost start = visitor.heap_view();
        proof {
            let edge = descriptor_edge(self@.descriptor);
            if edge.len() > 0 {
                assert(edge.drop_last() =~= Seq::<usize>::empty());
                assert(edge.last() == self@.descriptor);
                assert(start.mark_all(edge.drop_last()) == start);
                assert(start.mark_all(edge) == start.mark_one(self@.descriptor));
            } else {
                assert(start.mark_all(edge) == start);
            }
        }
        visitor.visit_pointer(&self.descriptor);
    }

    /// Reports the pointers of a descriptor: the pointer to the descriptor of
    /// descriptors. The dispatch table is not on the heap.
    fn visit_descriptor_pointers<V: GcVisitorExt>(&self, visitor: &mut V)
        requires
            old(visitor).well_formed(),
        ensures
            final(visitor).well_formed(),
            final(visitor).heap_view() == old(visitor).heap_view().mark_all(
                self@.pointers_for_kind(HeapItemKind::Descriptor),
            ),
            final(visitor).weak_seen() == old(visitor).weak_seen(),
    {
        proof {
            assert(self@.pointers_for_kind(HeapItemKind::Descriptor) =~= descriptor_edge(
                self@.descriptor,
            ));
        }
        self.visit_descriptor_pointer(visitor);
        if let HeapItemBody::Descriptor(fields) = &self.body {
            visitor.visit_rust_vtable_pointer(fields.vtable());
        }
    }

    /// Reports the pointers of an item that holds its slots as each slot says:
    /// the pointer to the descriptor, then every strong slot that holds a
    /// pointer. The weak slots are reported as weak.
    fn visit_strong_pointers<V: GcVisitorExt>(&self, visitor: &mut V, kind: Ghost<HeapItemKind>)
        requires
            old(visitor).well_formed(),
            kind@ != HeapItemKind::Descriptor,
            !kind@.is_weak_container_spec(),
        ensures
            final(visitor).well_formed(),
            final(visitor).heap_view() == old(visitor).heap_view().mark_all(
                self@.pointers_for_kind(kind@),
            ),
            final(visitor).weak_seen() == old(visitor).weak_seen() + self@.weak_pointers_for_kind(
                kind@,
            ),
    {
        let ghost start = visitor.heap_view();
        let ghost weak_start = visitor.weak_seen();
        self.visit_descriptor_pointer(visitor);
        let ghost middle = visitor.heap_view();
        match &self.body {
            HeapItemBody::Slots(slots) => {
                let ghost words = words_of(slots@);
                let mut i: usize = 0;
                proof {
                    assert(words.take(0) =~= Seq::<SlotView>::empty());
                    assert(weak_start + weak_pointers(words.take(0)) =~= weak_start);
                }
                while i < slots.len()
                    invariant
                        i <= slots.len(),
                        words == words_of(slots@),
                        visitor.well_formed(),
                        visitor.heap_view() == middle.mark_all(
                            strong_pointers(words.take(i as int)),
                        ),
                        visitor.weak_seen() == weak_start + weak_pointers(words.take(i as int)),
                    decreases slots.len() - i,
                {
                    proof {
                        let done = words.take(i as int);
                        let more = words.take(i + 1);
                        assert(more.drop_last() =~= done);
                        assert(more.last().word == slots@[i as int].value@);
                        assert(more.last().weak == slots@[i as int].weak);
                        assert(strong_pointers(done).push(more.last().word).drop_last()
                            =~= strong_pointers(done));
                        assert((weak_start + weak_pointers(done)).push(more.last().word)
                            =~= weak_start + weak_pointers(done).push(more.last().word));
                    }
                    if slots[i].weak {
                        visitor.visit_weak_value(&slots[i].value);
                    } else {
                        visitor.visit_value(&slots[i].value);
                    }
                    i += 1;
                }
                proof {
                    assert(words.take(slots.len() as int) =~= words);
                    lemma_mark_all_concat(
                        start,
                        descriptor_edge(self@.descriptor),
                        strong_pointers(words),
                    );
                }
            },
            _ => {
                proof {
                    assert(self@.pointers_for_kind(kind@) =~= descriptor_edge(self@.descriptor));
                    assert(weak_start + self@.weak_pointers_for_kind(kind@) =~= weak_start);
                }
            },
        }
    }

    /// Reports the pointers of an item whose slots are held weakly: the pointer
    /// to the descriptor is strong, the slots keep nothing alive.
    fn visit_weak_pointers<V: GcVisitorExt>(&self, visitor: &mut V, kind: Ghost<HeapItemKind>)
        requires
            old(visitor).well_formed(),
            kind@.is_weak_container_spec(),
        ensures
            final(visitor).well_formed(),
            final(visitor).heap_view() == old(visitor).heap_view().mark_all(
                self@.pointers_for_kind(kind@),
            ),
            final(visitor).weak_seen() == old(visitor).weak_seen() + self@.weak_pointers_for_kind(
                kind@,
            ),
    {
        let ghost weak_start = visitor.weak_seen();
        proof {
            assert(self@.pointers_for_kind(kind@) =~= descriptor_edge(self@.descriptor));
        }
        self.visit_descriptor_pointer(visitor);
        let ghost middle = visitor.heap_view();
        match &self.body {
            HeapItemBody::Slots(slots) => {
                let ghost words = words_of(slots@);
                let mut i: usize = 0;
                proof {
                    assert(words.take(0) =~= Seq::<SlotView>::empty());
                    assert(weak_start + slot_pointers(words.take(0)) =~= weak_start);
                }
                while i < slots.len()
                    invariant
                        i <= slots.len(),
                        words == words_of(slots@),
                        visitor.well_formed(),
                        visitor.heap_view() == middle,
                        visitor.weak_seen() == weak_start + slot_pointers(words.take(i as int)),
                    decreases slots.len() - i,
                {
                    proof {
                        let done = words.take(i as int);
                        let more = words.take(i + 1);
                        assert(more.drop_last() =~= done);
                        assert(more.last().word == slots@[i as int].value@);
                        assert((weak_start + slot_pointers(done)).push(more.last().word)
                            =~= weak_start + slot_pointers(done).push(more.last().word));
                    }
                    visitor.visit_weak_value(&slots[i].value);
                    i += 1;
                }
                proof {
                    assert(words.take(slots.len() as int) =~= words);
                }
            },
            _ => {
                proof {
                    assert(weak_start + self@.weak_pointers_for_kind(kind@) =~= weak_start);
                }
            },
        }
    }

    /// Reports the pointers of the item, taken as an item of kind `kind`: the
    /// strong pointers mark their targets, the weak pointers are reported as weak.
    ///
    /// The kind decides how the body is read: a descriptor has the pointer to
    /// the descriptor of descriptors, the weak hash tables hold all of their
    /// slots weakly, and every other kind holds each slot as the slot says.
    pub fn visit_pointers_for_kind<V: GcVisitorExt>(&self, visitor: &mut V, kind: HeapItemKind)
        requires
            old(visitor).well_formed(),
            kind != HeapItemKind::Last,
        ensures
            final(visitor).well_formed(),
            final(visitor).heap_view() == old(visitor).heap_view().mark_all(
                self@.pointers_for_kind(kind),
            ),
            final(visitor).weak_seen() == old(visitor).weak_seen() + self@.weak_pointers_for_kind(
                kind,
            ),
    {
        proof {
            assert(old(visitor).weak_seen() + Seq::<usize>::empty() =~= old(visitor).weak_seen());
        }
        match kind {
            HeapItemKind::Descriptor => self.visit_descriptor_pointers(visitor),
            HeapItemKind::OrdinaryObject
            | HeapItemKind::Proxy
            | HeapItemKind::BooleanObject
            | HeapItemKind::NumberObject
            | HeapItemKind::StringObject
            | HeapItemKind::SymbolObject
            | HeapItemKind::BigIntObject
            | HeapItemKind::ArrayObject
            | HeapItemKind::RegExpObject
            | HeapItemKind::ErrorObject
            | HeapItemKind::DateObject
            | HeapItemKind::SetObject
            | HeapItemKind::MapObject
            | HeapItemKind::WeakRefObject
            | HeapItemKind::WeakSetObject
            | HeapItemKind::WeakMapObject
            | HeapItemKind::FinalizationRegistryObject
            | HeapItemKind::MappedArgumentsObject
            | HeapItemKind::UnmappedArgumentsObject
            | HeapItemKind::Int8Array
            | HeapItemKind::UInt8Array
            | HeapItemKind::UInt8ClampedArray
            | HeapItemKind::Int16Array
            | HeapItemKind::UInt16Array
            | HeapItemKind::Int32Array
            | HeapItemKind::UInt32Array
            | HeapItemKind::BigInt64Array
            | HeapItemKind::BigUInt64Array
            | HeapItemKind::Float16Array
            | HeapItemKind::Float32Array
            | HeapItemKind::Float64Array
            | HeapItemKind::ArrayBufferObject
            | HeapItemKind::DataViewObject
            | HeapItemKind::ArrayIterator
            | HeapItemKind::StringIterator
            | HeapItemKind::SetIterator
            | HeapItemKind::MapIterator
            | HeapItemKind::RegExpStringIterator
            | HeapItemKind::ForInIterator
            | HeapItemKind::AsyncFromSyncIterator
            | HeapItemKind::WrappedValidIterator
            | HeapItemKind::IteratorHelperObject
            | HeapItemKind::ObjectPrototype
            | HeapItemKind::String
            | HeapItemKind::Symbol
            | HeapItemKind::BigInt
            | HeapItemKind::Accessor
            | HeapItemKind::Promise
            | HeapItemKind::PromiseReaction
            | HeapItemKind::PromiseCapability
            | HeapItemKind::Realm
            | HeapItemKind::Closure
            | HeapItemKind::BytecodeFunction
            | HeapItemKind::ConstantTable
            | HeapItemKind::ExceptionStackRootrs
            | HeapItemKind::SourceFile
            | HeapItemKind::Scope
            | HeapItemKind::ScopeNames
            | HeapItemKind::GlobalNames
            | HeapItemKind::ClassNames
            | HeapItemKind::SourceTextModule
            | HeapItemKind::SyntheticModule
            | HeapItemKind::ModuleNamespaceObject
            | HeapItemKind::ImportAttributes
            | HeapItemKind::Generator
            | HeapItemKind::AsyncGenerator
            | HeapItemKind::AsyncGeneratorRequest
            | HeapItemKind::DenseArrayProperties
            | HeapItemKind::SparseArrayProperties
            | HeapItemKind::CompiledRegExpObject
            | HeapItemKind::BoxedValue
            | HeapItemKind::ObjectNamedPropertiesMap
            | HeapItemKind::MapObjectValueMap
            | HeapItemKind::SetObjectValueSet
            | HeapItemKind::ExportMap
            | HeapItemKind::GlobalSymbolRegistryMap
            | HeapItemKind::InternedStringsSet
            | HeapItemKind::LexicalNamesMap
            | HeapItemKind::ModuleCacheMap
            | HeapItemKind::ValueArray
            | HeapItemKind::ByteArray
            | HeapItemKind::U32Array
            | HeapItemKind::ModuleRequestArray
            | HeapItemKind::ModuleOptionArray
            | HeapItemKind::StackFrameInfoArray
            | HeapItemKind::FinalizationRegistryCells
            | HeapItemKind::GlobalScopes
            | HeapItemKind::ValueVec => self.visit_strong_pointers(visitor, Ghost(kind)),
            HeapItemKind::WeakSetObjectWeakValueSet
            | HeapItemKind::WeakMapObjectWeakValueMap => self.visit_weak_pointers(visitor, Ghost(kind)),
            HeapItemKind::Last => {},
        }
    }
}

/// The kind of the item at `ptr`, read from its descriptor: `None` if there is
/// no item at `ptr` or no descriptor where its descriptor pointer points.
pub open spec fn kind_at(items: Map<usize, ItemView>, ptr: usize) -> Option<HeapItemKind> {
    if items.contains_key(ptr) && items.contains_key(items[ptr].descriptor) {
        match items[items[ptr].descriptor].body {
            BodyView::Descriptor(fields) => Some(fields.kind),
            _ => None,
        }
    } else {
        None
    }
}

/// The strong pointers that the item at `ptr` holds, in the order in which
/// tracing reports them. Nothing is reported where the kind cannot be read.
pub open spec fn edges_of(items: Map<usize, ItemView>, ptr: usize) -> Seq<usize> {
    match kind_at(items, ptr) {
        Some(kind) if kind != HeapItemKind::Last => items[ptr].pointers_for_kind(kind),
        _ => Seq::empty(),
    }
}

/// The weak pointers that the item at `ptr` holds, in the order in which
/// tracing reports them. Nothing is reported where the kind cannot be read.
pub open spec fn weak_edges_of(items: Map<usize, ItemView>, ptr: usize) -> Seq<usize> {
    match kind_at(items, ptr) {
        Some(kind) if kind != HeapItemKind::Last => items[ptr].weak_pointers_for_kind(kind),
        _ => Seq::empty(),
    }
}

/// Whether the item at `ptr` has a slot at `index`.
pub open spec fn has_slot(items: Map<usize, ItemView>, ptr: usize, index: int) -> bool {
    items.contains_key(ptr) && match items[ptr].body {
        BodyView::Slots(slots) => 0 <= index < slots.len(),
        _ => false,
    }
}

/// The item `item` with the word `word` in its slot at `index`, which stays
/// strong or weak as it is.
pub open spec fn with_slot(item: ItemView, index: int, word: usize) -> ItemView {
    match item.body {
        BodyView::Slots(slots) => ItemView {
            descriptor: item.descriptor,
            body: BodyView::Slots(
                slots.update(index, SlotView { word, weak: slots[index].weak }),
            ),
        },
        _ => item,
    }
}

/// Whether the slot at `index` of the item at `ptr` is a strong slot.
pub open spec fn has_strong_slot(items: Map<usize, ItemView>, ptr: usize, index: int) -> bool {
    items.contains_key(ptr) && match items[ptr].body {
        BodyView::Slots(slots) => 0 <= index < slots.len() && !slots[index].weak,
        _ => false,
    }
}

/// The descriptor of the item at `ptr`: the fields of the item that its
/// descriptor pointer points to, `None` if there is no item at `ptr` or no
/// descriptor there.
pub open spec fn descriptor_at(items: Map<usize, ItemView>, ptr: usize) -> Option<
    DescriptorView,
> {
    if items.contains_key(ptr) && items.contains_key(items[ptr].descriptor) {
        match items[items[ptr].descriptor].body {
            BodyView::Descriptor(fields) => Some(fields),
            _ => None,
        }
    } else {
        None
    }
}

/// The size in bytes of the item at `ptr`, by the kind that its descriptor tells.
pub open spec fn size_at(items: Map<usize, ItemView>, ptr: usize) -> Option<int> {
    match kind_at(items, ptr) {
        Some(kind) if kind != HeapItemKind::Last => Some(items[ptr].byte_size_for_kind(kind)),
        _ => None,
    }
}

/// The bodies of the heap items by the address of the item.
pub struct HeapItems {
    items: HashMap<usize, AnyHeapItem>,
    addresses: Vec<usize>,
}

impl View for HeapItems {
    type V = Map<usize, ItemView>;

    closed spec fn view(&self) -> Map<usize, ItemView> {
        Map::new(|a: usize| self.items@.contains_key(a), |a: usize| self.items@[a]@)
    }
}

impl HeapItems {
    /// The invariant of the store: every item is well formed, and the list of
    /// addresses names each item once.
    pub closed spec fn wf(&self) -> bool {
        &&& forall|a: usize| #[trigger] self.items@.contains_key(a) ==> self.items@[a].wf()
        &&& self.addresses@.no_duplicates()
        &&& forall|a: usize| #[trigger]
            self.items@.contains_key(a) <==> self.addresses@.contains(a)
    }

    /// A store without items.
    pub fn new() -> (items: HeapItems)
        ensures
            items.wf(),
            items@ == Map::<usize, ItemView>::empty(),
    {
        let items = HeapItems { items: HashMap::new(), addresses: Vec::new() };
        assert(items@ =~= Map::<usize, ItemView>::empty());
        items
    }

    /// The item at `ptr`, if there is one.
    pub fn get(&self, ptr: usize) -> (item: Option<&AnyHeapItem>)
        requires
            self.wf(),
        ensures
            item.is_some() == self@.contains_key(ptr),
            item.is_some() ==> item.unwrap()@ == self@[ptr] && item.unwrap().wf(),
    {
        self.items.get(&ptr)
    }

    /// Puts `item` at `ptr`, in place of the item that was there, if any.
    pub fn insert(&mut self, ptr: usize, item: AnyHeapItem)
        requires
            old(self).wf(),
            item.wf(),
        ensures
            final(self).wf(),
            final(self)@ == old(self)@.insert(ptr, item@),
    {
        let ghost before = *self;
        if !self.items.contains_key(&ptr) {
            self.addresses.push(ptr);
        }
        self.items.insert(ptr, item);
        proof {
            assert forall|a: usize| #[trigger]
                self.items@.contains_key(a) <==> self.addresses@.contains(a) by {
                if before.addresses@.contains(a) {
                    let i = choose|i: int|
                        0 <= i < before.addresses@.len() && before.addresses@[i] == a;
                    assert(self.addresses@[i] == a);
                }
                if a == ptr && !before.items@.contains_key(ptr) {
                    assert(self.addresses@[before.addresses@.len() as int] == a);
                }
            }
            assert(self@ =~= before@.insert(ptr, item@));
        }
    }

    /// Puts `value` into the slot at `index` of the item at `ptr` and says
    /// whether there is such a slot.
    pub fn set_slot(&mut self, ptr: usize, index: usize, value: Value) -> (written: bool)
        requires
            old(self).wf(),
        ensures
            final(self).wf(),
            written == has_slot(old(self)@, ptr, index as int),
            final(self)@ == (if written {
                old(self)@.insert(ptr, with_slot(old(self)@[ptr], index as int, value@))
            } else {
                old(self)@
            }),
    {
        let ghost before = *self;
        match self.items.remove(&ptr) {
            Some(item) => {
                let mut item = item;
                let written = item.set_slot(index, value);
                self.items.insert(ptr, item);
                proof {
                    assert(self.items@.dom() =~= before.items@.dom());
                    if written {
                        assert(self@ =~= before@.insert(
                            ptr,
                            with_slot(before@[ptr], index as int, value@),
                        ));
                    } else {
                        assert(self@ =~= before@);
                    }
                }
                written
            },
            None => {
                proof {
                    assert(self@ =~= before@);
                }
                false
            },
        }
    }

    /// The descriptor of the item at `ptr`.
    pub fn descriptor_of(&self, ptr: usize) -> (descriptor: Option<HeapItemDescriptor>)
        requires
            self.wf(),
        ensures
            descriptor.is_some() == descriptor_at(self@, ptr).is_some(),
            descriptor.is_some() ==> descriptor.unwrap()@ == descriptor_at(self@, ptr).unwrap(),
    {
        match self.get(ptr) {
            Some(item) => match self.get(item.descriptor().as_ptr()) {
                Some(descriptor_item) => match descriptor_item.body() {
                    HeapItemBody::Descriptor(fields) => Some(*fields),
                    _ => None,
                },
                None => None,
            },
            None => None,
        }
    }

    /// The size in bytes of the item at `ptr`, which its descriptor computes
    /// for the kind of the item.
    pub fn byte_size(&self, ptr: usize) -> (size: Option<usize>)
        requires
            self.wf(),
        ensures
            size.is_some() == size_at(self@, ptr).is_some(),
            size.is_some() ==> size.unwrap() == size_at(self@, ptr).unwrap(),
    {
        match self.descriptor_of(ptr) {
            Some(descriptor) => {
                if descriptor.kind().index() != HeapItemKind::count() {
                    match self.get(ptr) {
                        Some(item) => Some(descriptor.byte_size_for_item(item)),
                        None => None,
                    }
                } else {
                    None
                }
            },
            None => None,
        }
    }

    /// The kind of the item at `ptr`, read from its descriptor.
    pub fn kind_of(&self, ptr: usize) -> (kind: Option<HeapItemKind>)
        requires
            self.wf(),
        ensures
            kind == kind_at(self@, ptr),
    {
        match self.get(ptr) {
            Some(item) => match self.get(item.descriptor().as_ptr()) {
                Some(descriptor_item) => match descriptor_item.body() {
                    HeapItemBody::Descriptor(fields) => Some(fields.kind()),
                    _ => None,
                },
                None => None,
            },
            None => None,
        }
    }

    /// Reports to `visitor` the pointers that the item at `ptr` holds, strong
    /// ones as strong and weak ones as weak: reads the kind of the item from
    /// its descriptor and traces the item as that kind.
    pub fn trace<V: GcVisitorExt>(&self, ptr: usize, visitor: &mut V)
        requires
            self.wf(),
            old(visitor).well_formed(),
        ensures
            final(visitor).well_formed(),
            final(visitor).heap_view() == old(visitor).heap_view().mark_all(edges_of(self@, ptr)),
            final(visitor).weak_seen() == old(visitor).weak_seen() + weak_edges_of(self@, ptr),
    {
        proof {
            assert(old(visitor).weak_seen() + Seq::<usize>::empty() =~= old(visitor).weak_seen());
        }
        match self.kind_of(ptr) {
            Some(kind) => {
                if kind.index() != HeapItemKind::count() {
                    let heap_item: HeapPtr<AnyHeapItem> = HeapPtr::from_ptr(ptr);
                    heap_item.visit_pointers_for_kind(self, visitor, kind);
                }
            },
            None => {},
        }
    }

    /// Drops the bodies of the items that `heap` has freed.
    #[verifier::rlimit(40)]
    pub fn prune(&mut self, heap: &crate::heap::Heap)
        requires
            old(self).wf(),
            heap.wf(),
        ensures
            final(self).wf(),
            forall|a: usize| #[trigger]
                final(self)@.contains_key(a) <==> old(self)@.contains_key(a) && heap@.manages(a),
            forall|a: usize| #[trigger]
                final(self)@.contains_key(a) ==> final(self)@[a] == old(self)@[a],
    {
        let ghost before = *self;
        let mut kept: Vec<usize> = Vec::new();
        let mut i: usize = 0;
        while i < self.addresses.len()
            invariant
                before.wf(),
                heap.wf(),
                i <= self.addresses.len(),
                self.addresses@ == before.addresses@,
                forall|a: usize| #[trigger]
                    self.items@.contains_key(a) <==> before.items@.contains_key(a) && (
                    heap@.manages(a) || !before.addresses@.take(i as int).contains(a)),
                forall|a: usize| #[trigger]
                    self.items@.contains_key(a) ==> self.items@[a] == before.items@[a],
                kept@.no_duplicates(),
                forall|a: usize| #[trigger]
                    kept@.contains(a) <==> before.addresses@.take(i as int).contains(a)
                        && heap@.manages(a),
            decreases self.addresses.len() - i,
        {
            let address = self.addresses[i];
            let ghost done = before.addresses@.take(i as int);
            let ghost more = before.addresses@.take(i + 1);
            let ghost kept_before = kept@;
            proof {
                assert(more =~= done.push(address));
                assert(!done.contains(address)) by {
                    if done.contains(address) {
                        let j = choose|j: int| 0 <= j < done.len() && done[j] == address;
                        assert(before.addresses@[j] == address);
                    }
                }
                assert forall|a: usize| more.contains(a) <==> done.contains(a) || a
                    == address by {
                    if done.contains(a) {
                        let j = choose|j: int| 0 <= j < done.len() && done[j] == a;
                        assert(more[j] == a);
                    }
                    if a == address {
                        assert(more[i as int] == a);
                    }
                    if more.contains(a) {
                        let j = choose|j: int| 0 <= j < more.len() && more[j] == a;
                        if j < i {
                            assert(done[j] == a);
                        }
                    }
                }
            }
            if heap.manages(address) {
                kept.push(address);
                proof {
                    assert(!kept_before.contains(address));
                    assert forall|x: int, y: int|
                        0 <= x < kept@.len() && 0 <= y < kept@.len() && x != y implies kept@[x]
                        != kept@[y] by {
                        if x < kept_before.len() && y < kept_before.len() {
                            assert(kept_before[x] != kept_before[y]);
                        } else if x < kept_before.len() {
                            assert(kept_before.contains(kept_before[x]));
                        } else {
                            assert(kept_before.contains(kept_before[y]));
                        }
                    }
                    assert forall|a: usize| #[trigger]
                        kept@.contains(a) <==> more.contains(a) && heap@.manages(a) by {
                        if kept_before.contains(a) {
                            let j = choose|j: int|
                                0 <= j < kept_before.len() && kept_before[j] == a;
                            assert(kept@[j] == a);
                        }
                        if a == address {
                            assert(kept@[kept_before.len() as int] == a);
                        }
                        if kept@.contains(a) {
                            let j = choose|j: int| 0 <= j < kept@.len() && kept@[j] == a;
                            if j < kept_before.len() {
                                assert(kept_before[j] == a);
                            }
                        }
                    }
                }
            } else {
                self.items.remove(&address);
            }
            i += 1;
        }
        self.addresses = kept;
        proof {
            assert(before.addresses@.take(before.addresses@.len() as int)
                =~= before.addresses@);
            assert forall|a: usize| #[trigger]
                self@.contains_key(a) <==> before@.contains_key(a) && heap@.manages(a) by {}
        }
    }
}

impl HeapPtr<AnyHeapItem> {
    /// Reports to `visitor` the strong pointers of the item that the pointer
    /// points to in `items`, taken as an item of kind `kind`. Nothing is
    /// reported where `items` has no item at the address.
    pub fn visit_pointers_for_kind<V: GcVisitorExt>(
        &self,
        items: &HeapItems,
        visitor: &mut V,
        kind: HeapItemKind,
    )
        requires
            items.wf(),
            old(visitor).well_formed(),
            kind != HeapItemKind::Last,
        ensures
            final(visitor).well_formed(),
            final(visitor).heap_view() == old(visitor).heap_view().mark_all(
                if items@.contains_key(self@) {
                    items@[self@].pointers_for_kind(kind)
                } else {
                    Seq::empty()
                },
            ),
            final(visitor).weak_seen() == old(visitor).weak_seen() + (if items@.contains_key(
                self@,
            ) {
                items@[self@].weak_pointers_for_kind(kind)
            } else {
                Seq::empty()
            }),
    {
        proof {
            assert(old(visitor).weak_seen() + Seq::<usize>::empty() =~= old(visitor).weak_seen());
        }
        match items.get(self.as_ptr()) {
            Some(item) => item.visit_pointers_for_kind(visitor, kind),
            None => {},
        }
    }
}

/// What every heap item can tell the collector: its size and its pointers.
pub trait HeapItem {
    /// The size of the item in bytes, not rounded up to the alignment.
    spec fn byte_size_spec(&self) -> int;

    /// The strong pointers of the item in the order in which they are reported.
    spec fn pointers(&self) -> Seq<usize>;

    /// The weak pointers of the item in the order in which they are reported.
    spec fn weak_pointers(&self) -> Seq<usize>;

    /// The size of the item in bytes, not rounded up to the alignment.
    fn byte_size(&self) -> (size: usize)
        requires
            self.byte_size_spec() <= usize::MAX,
        ensures
            size == self.byte_size_spec(),
    ;

    /// Reports every pointer of the item to `visitor`, strong or weak as the
    /// item holds it.
    fn visit_pointers<V: GcVisitorExt>(&self, visitor: &mut V)
        requires
            old(visitor).well_formed(),
        ensures
            final(visitor).well_formed(),
            final(visitor).heap_view() == old(visitor).heap_view().mark_all(self.pointers()),
            final(visitor).weak_seen() == old(visitor).weak_seen() + self.weak_pointers(),
    ;
}

impl HeapItem for HeapItemDescriptor {
    open spec fn byte_size_spec(&self) -> int {
        DESCRIPTOR_BYTE_SIZE as int
    }

    open spec fn pointers(&self) -> Seq<usize> {
        descriptor_edge(self@.descriptor)
    }

    open spec fn weak_pointers(&self) -> Seq<usize> {
        Seq::empty()
    }

    fn byte_size(&self) -> (size: usize) {
        DESCRIPTOR_BYTE_SIZE
    }

    /// A descriptor has the pointer to the descriptor of descriptors. Its
    /// dispatch table is not on the heap.
    fn visit_pointers<V: GcVisitorExt>(&self, visitor: &mut V) {
        let ghost start = visitor.heap_view();
        proof {
            let edge = descriptor_edge(self@.descriptor);
            if edge.len() > 0 {
                assert(edge.drop_last() =~= Seq::<usize>::empty());
                assert(edge.last() == self@.descriptor);
                assert(start.mark_all(edge.drop_last()) == start);
            }
            assert(old(visitor).weak_seen() + Seq::<usize>::empty() =~= old(visitor).weak_seen());
        }
        visitor.visit_pointer(&self.descriptor());
        visitor.visit_rust_vtable_pointer(self.vtable());
    }
}

/// The types of heap items.
pub trait IsHeapItem {

}

impl IsHeapItem for AnyHeapItem {

}

impl IsHeapItem for HeapItemDescriptor {

}

impl<T: IsHeapItem> HeapPtr<T> {
    /// The pointer as a pointer to an arbitrary heap item.
    #[inline]
    pub fn as_heap_item(&self) -> (heap_item: HeapPtr<AnyHeapItem>)
        ensures
            heap_item@ == self@,
    {
        self.cast()
    }
}

} // verus!
