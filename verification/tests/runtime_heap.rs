use so2js_gc::heap_model::ObjectGraph;
use so2js_gc::runtime::accessor::Accessor;
use so2js_gc::runtime::gc::heap::{Heap, RuntimeContext};
use so2js_gc::runtime::gc::heap_item::{AnyHeapItem, HeapItem, HeapItemBody, HeapItems, Slot};
use so2js_gc::runtime::heap_item_descriptor::{
    BaseDescriptors, DescFlags, HeapItemDescriptor, HeapItemKind, DESCRIPTOR_BYTE_SIZE,
};
use so2js_gc::runtime::intrinsics::weak_map_object::WeakMapObjectMapField;
use so2js_gc::runtime::rust_vtables::{get_vtable, lookup_vtable_enum, RustVtable, RustVtables};
use so2js_gc::runtime::value::EMPTY_BITS;
use so2js_gc::runtime::{Context, GcVisitorExt, HeapPtr, StackRoot, StackRootScope, Value};
use so2js_gc::pointer::Trace;
use so2js_gc::{GcContext, GcPhase, GcPtr, GcVisitor};

fn vtables() -> RustVtables {
    // Addresses in no particular order.
    let addresses: Vec<usize> = (0..RustVtable::COUNT)
        .map(|i| 0x7000 + 16 * ((i * 7) % RustVtable::COUNT))
        .collect();
    RustVtables::new(addresses).unwrap()
}

fn new_context() -> Context {
    let mut cx = Context::new(vtables(), 0x1000);
    let table = BaseDescriptors::new(&mut cx).unwrap();
    cx.base_descriptors = table;
    cx
}

fn strong(values: Vec<Value>) -> HeapItemBody {
    HeapItemBody::Slots(values.into_iter().map(Slot::strong).collect())
}

fn object(cx: &mut Context, slots: Vec<Value>) -> HeapPtr<AnyHeapItem> {
    cx.alloc_item(HeapItemKind::OrdinaryObject, strong(slots)).unwrap()
}

fn kinds() -> usize {
    HeapItemKind::count()
}

#[test]
fn kinds_are_numbered_in_order() {
    assert_eq!(HeapItemKind::count(), 91);
    assert_eq!(HeapItemKind::Descriptor.index(), 0);
    assert_eq!(HeapItemKind::OrdinaryObject.index(), 1);
    assert_eq!(HeapItemKind::ValueVec.index(), 90);
    assert_eq!(HeapItemKind::Last.index(), 91);
    for index in 0..91 {
        assert_eq!(HeapItemKind::from_index(index).index(), index);
    }
    assert_eq!(HeapItemKind::from_index(91), HeapItemKind::Last);
    assert_eq!(HeapItemKind::from_index(1000), HeapItemKind::Last);
}

#[test]
fn kinds_know_their_flags_and_tables() {
    assert!(HeapItemKind::OrdinaryObject.is_object());
    assert!(HeapItemKind::Proxy.is_object());
    assert!(HeapItemKind::Closure.is_object());
    assert!(HeapItemKind::Float64Array.is_object());
    assert!(!HeapItemKind::Descriptor.is_object());
    assert!(!HeapItemKind::String.is_object());
    assert!(!HeapItemKind::ForInIterator.is_object());
    assert!(!HeapItemKind::ValueVec.is_object());
    assert_eq!(HeapItemKind::OrdinaryObject.vtable(), RustVtable::OrdinaryVirtualObject);
    assert_eq!(HeapItemKind::Descriptor.vtable(), RustVtable::OrdinaryVirtualObject);
    assert_eq!(HeapItemKind::Proxy.vtable(), RustVtable::ProxyVirtualObject);
    assert_eq!(HeapItemKind::UInt32Array.vtable(), RustVtable::Uint32ArrayVirtualObject);
    assert_eq!(
        HeapItemKind::ModuleNamespaceObject.vtable(),
        RustVtable::ModuleNamespaceVirtualObject
    );
    assert_eq!(HeapItemKind::Proxy.flags(), DescFlags::object());
    assert_eq!(HeapItemKind::String.flags(), DescFlags::empty());
    assert!(DescFlags::object().contains(DescFlags::object()));
    assert!(DescFlags::object().contains(DescFlags::empty()));
    assert!(!DescFlags::empty().contains(DescFlags::object()));
}

#[test]
fn vtables_are_found_by_address() {
    let registry = vtables();
    for index in 0..RustVtable::COUNT {
        let vtable = RustVtable::from_index(index);
        assert_eq!(vtable.index(), index);
        let address = get_vtable(&registry, vtable);
        assert_eq!(address, 0x7000 + 16 * ((index * 7) % RustVtable::COUNT));
        assert_eq!(lookup_vtable_enum(&registry, address), Some(vtable));
        assert_eq!(lookup_vtable_enum(&registry, address + 8), None);
    }
    assert_eq!(lookup_vtable_enum(&registry, 0), None);
    assert_eq!(lookup_vtable_enum(&registry, usize::MAX), None);
    assert_eq!(RustVtable::from_index(RustVtable::COUNT), RustVtable::Last);
    assert_eq!(RustVtable::Last.index(), 32);
}

#[test]
fn vtables_need_one_address_each() {
    assert!(RustVtables::new(vec![]).is_none());
    assert!(RustVtables::new(vec![8; 31]).is_none());
    assert!(RustVtables::new(vec![8; 33]).is_none());
    // Tables may share an address: the search finds one of them.
    let shared = RustVtables::new(vec![8; 32]).unwrap();
    let found = lookup_vtable_enum(&shared, 8).unwrap();
    assert_eq!(get_vtable(&shared, found), 8);
    assert_eq!(lookup_vtable_enum(&shared, 16), None);
}

#[test]
fn base_descriptors_describe_every_kind() {
    let cx = new_context();
    assert_eq!(cx.heap.gc_heap().num_objects(), 91);
    assert_eq!(cx.heap.gc_heap().bytes_allocated(), 91 * 48);
    // The placeholder and the descriptor of descriptors.
    assert_eq!(cx.handle_context.handle_count(), 2);
    assert_eq!(cx.handle_context.read(so2js_gc::runtime::stack::handle::HANDLE_REGION_BASE), Some(EMPTY_BITS));
    let descriptor = cx.base_descriptors.get(HeapItemKind::Descriptor);
    assert_eq!(descriptor.as_ptr(), 4096 + 24);
    assert_eq!(
        cx.handle_context.read(so2js_gc::runtime::stack::handle::HANDLE_REGION_BASE + 8),
        Some(descriptor.as_ptr())
    );
    for index in 0..kinds() {
        let kind = HeapItemKind::from_index(index);
        let ptr = cx.base_descriptors.get(kind);
        assert_eq!(ptr.as_ptr(), 4096 + 24 + 48 * index);
        let item = cx.items.get(ptr.as_ptr()).unwrap();
        // Every descriptor has the descriptor of descriptors as its descriptor.
        assert!(item.descriptor().ptr_eq(&descriptor));
        assert_eq!(cx.items.kind_of(ptr.as_ptr()), Some(HeapItemKind::Descriptor));
        match item.body() {
            HeapItemBody::Descriptor(fields) => {
                assert_eq!(fields.kind(), kind);
                assert_eq!(fields.is_object(), kind.is_object());
                assert_eq!(fields.vtable(), get_vtable(&cx.rust_vtables, kind.vtable()));
                assert!(fields.descriptor().ptr_eq(&descriptor));
                assert_eq!(fields.byte_size_for_item(item), DESCRIPTOR_BYTE_SIZE);
                assert_eq!(fields.byte_size(), 24);
            }
            _ => panic!("a descriptor has the body of a descriptor"),
        }
        assert!(cx.heap.gc_heap().manages(ptr.as_ptr()));
    }
}

#[test]
fn base_descriptors_survive_collections() {
    let mut cx = new_context();
    Heap::run_gc(&mut cx);
    assert_eq!(cx.heap.gc_heap().num_objects(), 91);
    Heap::run_gc(&mut cx);
    assert_eq!(cx.heap.gc_heap().num_objects(), 91);
    assert_eq!(cx.heap.gc_heap().phase(), GcPhase::Idle);
    for index in 0..kinds() {
        let ptr = cx.base_descriptors.get(HeapItemKind::from_index(index));
        assert!(cx.items.get(ptr.as_ptr()).is_some());
    }
}

#[test]
fn uninit_tables() {
    let empty = BaseDescriptors::uninit_empty();
    let mut cx = Context::new(vtables(), 8);
    cx.base_descriptors = empty;
    Heap::run_gc(&mut cx);
    let mut uninit = BaseDescriptors::uninit();
    for index in 0..kinds() {
        assert!(uninit.get(HeapItemKind::from_index(index)).is_dangling());
    }
    uninit.set(HeapItemKind::String, HeapPtr::from_ptr(4120));
    assert_eq!(uninit.get(HeapItemKind::String).as_ptr(), 4120);
    assert!(uninit.get(HeapItemKind::Symbol).is_dangling());
}

#[test]
fn unrooted_items_are_collected_and_their_bodies_dropped() {
    let mut cx = new_context();
    let scope = StackRootScope::enter(&cx);
    let kept = object(&mut cx, vec![Value::from_raw_bits(42 * 8 + 1)]);
    let kept_root = kept.to_stack(&mut cx);
    let mut lost = Vec::new();
    for i in 0..10 {
        lost.push(object(&mut cx, vec![Value::from_raw_bits(i * 8 + 1)]));
    }
    assert_eq!(cx.heap.gc_heap().num_objects(), 91 + 11);

    Heap::run_gc(&mut cx);

    assert_eq!(cx.heap.gc_heap().num_objects(), 91 + 1);
    assert_eq!(kept_root.get(&cx.handle_context), Some(kept.as_ptr()));
    let item = cx.items.get(kept.as_ptr()).unwrap();
    assert_eq!(item.slot(0).unwrap().value.as_raw_bits(), 42 * 8 + 1);
    for ptr in &lost {
        assert!(cx.items.get(ptr.as_ptr()).is_none());
        assert!(!cx.heap.gc_heap().manages(ptr.as_ptr()));
    }

    // Out of its scope the item is garbage.
    scope.exit(&mut cx);
    Heap::run_gc(&mut cx);
    assert_eq!(cx.heap.gc_heap().num_objects(), 91);
    assert!(cx.items.get(kept.as_ptr()).is_none());
}

#[test]
fn items_reachable_through_slots_survive() {
    let mut cx = new_context();
    let leaf = object(&mut cx, vec![Value::from_raw_bits(9)]);
    let middle = object(&mut cx, vec![Value::empty(), Value::from_pointer(leaf)]);
    let head = object(&mut cx, vec![Value::from_pointer(middle)]);
    let _other = object(&mut cx, vec![Value::from_pointer(head)]);
    let _root = head.to_stack(&mut cx);
    Heap::run_gc(&mut cx);
    assert_eq!(cx.heap.gc_heap().num_objects(), 91 + 3);
    assert!(cx.heap.gc_heap().manages(leaf.as_ptr()));
    assert!(cx.heap.gc_heap().manages(middle.as_ptr()));
    assert!(cx.heap.gc_heap().manages(head.as_ptr()));
}

#[test]
fn weak_containers_keep_nothing_alive() {
    let mut cx = new_context();
    let key = object(&mut cx, vec![]);
    let value = object(&mut cx, vec![]);
    let table = cx
        .alloc_item(
            HeapItemKind::WeakMapObjectWeakValueMap,
            strong(vec![Value::from_pointer(key), Value::from_pointer(value)]),
        )
        .unwrap();
    let strong_table = cx
        .alloc_item(HeapItemKind::MapObjectValueMap, strong(vec![Value::from_pointer(value)]))
        .unwrap();
    let _table_root = table.to_stack(&mut cx);
    Heap::run_gc(&mut cx);
    // The weak table survives; its key and value do not.
    assert_eq!(cx.heap.gc_heap().num_objects(), 91 + 1);
    assert!(cx.heap.gc_heap().manages(table.as_ptr()));
    assert!(!cx.heap.gc_heap().manages(key.as_ptr()));
    assert!(!cx.heap.gc_heap().manages(value.as_ptr()));
    assert!(!cx.heap.gc_heap().manages(strong_table.as_ptr()));
    let item = cx.items.get(table.as_ptr()).unwrap();
    assert_eq!(WeakMapObjectMapField::byte_size(item), 24);
}

#[test]
fn bytes_hold_no_pointers() {
    let mut cx = new_context();
    let target = object(&mut cx, vec![]);
    // Bytes that spell the address of the target are not a pointer to it.
    let bytes = target.as_ptr().to_le_bytes().to_vec();
    let string = cx.alloc_item(HeapItemKind::String, HeapItemBody::Bytes(bytes)).unwrap();
    let _root = string.to_stack(&mut cx);
    assert_eq!(cx.items.get(string.as_ptr()).unwrap().body_byte_size(), 8 + 8);
    Heap::run_gc(&mut cx);
    assert!(cx.heap.gc_heap().manages(string.as_ptr()));
    assert!(!cx.heap.gc_heap().manages(target.as_ptr()));
    assert_eq!(cx.items.kind_of(string.as_ptr()), Some(HeapItemKind::String));
    assert_eq!(cx.items.kind_of(target.as_ptr()), None);
}

#[test]
fn write_slot_calls_the_barrier() {
    let mut cx = new_context();
    // Enough roots that marking takes more than one step.
    for _ in 0..20 {
        let _filler = object(&mut cx, vec![]).to_stack(&mut cx);
    }
    let holder = object(&mut cx, vec![Value::empty(), Value::empty()]);
    let target = object(&mut cx, vec![]);
    // Rooted last, the holder is scanned first.
    let _root = holder.to_stack(&mut cx);

    // Start a cycle and scan the holder.
    {
        let mut ctx = RuntimeContext::new(
            &cx.handle_context,
            &cx.base_descriptors,
            &cx.items,
            cx.address,
        );
        cx.heap.gc_heap_mut().start_gc(&mut ctx);
        assert!(cx.heap.gc_heap().is_alive(holder.into_gc_ptr()));
    }
    assert!(Heap::gc_step(&mut cx));
    assert_eq!(cx.heap.gc_heap().phase(), GcPhase::Marking);
    assert!(!cx.heap.gc_heap().is_alive(target.into_gc_ptr()));

    // The store into the scanned holder marks the target.
    assert!(cx.write_slot(holder, 1, Value::from_pointer(target)));
    assert!(cx.heap.gc_heap().is_alive(target.into_gc_ptr()));
    assert!(!cx.write_slot(holder, 2, Value::empty()));
    assert!(!cx.write_slot(HeapPtr::from_ptr(64), 0, Value::empty()));

    while Heap::gc_step(&mut cx) {}
    assert_eq!(cx.heap.gc_heap().num_objects(), 91 + 20 + 2);
    assert!(cx.heap.gc_heap().manages(target.as_ptr()));
    let item = cx.items.get(holder.as_ptr()).unwrap();
    assert_eq!(item.slot(1).unwrap().value.as_raw_bits(), target.as_ptr());
    assert!(!item.slot(1).unwrap().weak);
    assert!(item.slot(2).is_none());
}

#[test]
fn weak_slots_keep_nothing_alive_and_need_no_barrier() {
    let mut cx = new_context();
    for _ in 0..20 {
        let _filler = object(&mut cx, vec![]).to_stack(&mut cx);
    }
    let target = object(&mut cx, vec![]);
    let other = object(&mut cx, vec![]);
    let kept = object(&mut cx, vec![]);
    let weak_ref = cx
        .alloc_item(
            HeapItemKind::WeakRefObject,
            HeapItemBody::Slots(vec![
                Slot::strong(Value::from_pointer(kept)),
                Slot::weak(Value::from_pointer(target)),
            ]),
        )
        .unwrap();
    let _root = weak_ref.to_stack(&mut cx);
    {
        let mut ctx = RuntimeContext::new(
            &cx.handle_context,
            &cx.base_descriptors,
            &cx.items,
            cx.address,
        );
        cx.heap.gc_heap_mut().start_gc(&mut ctx);
    }
    assert!(Heap::gc_step(&mut cx));
    assert_eq!(cx.heap.gc_heap().phase(), GcPhase::Marking);
    // The strong slot has marked its target; the weak slot has not.
    assert!(cx.heap.gc_heap().is_alive(kept.into_gc_ptr()));
    assert!(!cx.heap.gc_heap().is_alive(target.into_gc_ptr()));
    // A store into the weak slot marks nothing.
    assert!(cx.write_slot(weak_ref, 1, Value::from_pointer(other)));
    assert!(!cx.heap.gc_heap().is_alive(other.into_gc_ptr()));
    assert!(cx.items.get(weak_ref.as_ptr()).unwrap().slot(1).unwrap().weak);
    while Heap::gc_step(&mut cx) {}
    assert!(cx.heap.gc_heap().manages(weak_ref.as_ptr()));
    assert!(cx.heap.gc_heap().manages(kept.as_ptr()));
    assert!(!cx.heap.gc_heap().manages(target.as_ptr()));
    assert!(!cx.heap.gc_heap().manages(other.as_ptr()));
}

#[test]
fn stress_mode_collects_before_every_allocation() {
    let mut cx = new_context();
    cx.heap.set_gc_stress_test(true);
    let first = object(&mut cx, vec![]);
    assert!(cx.heap.gc_heap().manages(first.as_ptr()));
    // The next allocation collects first: the unrooted item is gone.
    let second = object(&mut cx, vec![]);
    assert!(!cx.heap.gc_heap().manages(first.as_ptr()));
    assert!(cx.heap.gc_heap().manages(second.as_ptr()));
    assert_eq!(cx.heap.gc_heap().num_objects(), 91 + 1);
}

#[test]
fn alloc_uninit_fails_after_one_retry() {
    let mut cx = new_context();
    let lost = object(&mut cx, vec![]);
    let result = Heap::alloc_uninit_with_size::<u8>(&mut cx, usize::MAX / 2);
    assert!(result.is_err());
    // The collection before the second try has run.
    assert!(!cx.heap.gc_heap().manages(lost.as_ptr()));
    assert_eq!(cx.heap.gc_heap().num_objects(), 91);
    let ok = Heap::alloc_uninit::<u64>(&mut cx);
    assert_eq!(ok.unwrap().as_ptr(), lost.as_ptr() + 32);
    let too_big = cx.alloc_item(HeapItemKind::ByteArray, HeapItemBody::Bytes(vec![0; 100]));
    assert!(too_big.is_ok());
    assert_eq!(Heap::new(1 << 20).gc_heap().num_objects(), 0);
}

#[test]
fn descriptor_needs_room() {
    let mut cx = Context::new(vtables(), 0x1000);
    let filler =
        Heap::alloc_uninit_with_size::<u8>(&mut cx, (usize::MAX / 2 - 4096 - 24 - 48 * 90) & !7);
    assert!(filler.is_ok());
    // Room is left for 90 descriptors, one short of all kinds.
    assert!(BaseDescriptors::new(&mut cx).is_err());

    let mut cx = Context::new(vtables(), 0x1000);
    let filler =
        Heap::alloc_uninit_with_size::<u8>(&mut cx, (usize::MAX / 2 - 4096 - 24 - 48 * 91) & !7);
    assert!(filler.is_ok());
    assert!(BaseDescriptors::new(&mut cx).is_ok());
    let placeholder: StackRoot<HeapItemDescriptor> = StackRoot::empty(&mut cx);
    let one_more = HeapItemDescriptor::new(
        &mut cx,
        placeholder,
        RustVtable::OrdinaryVirtualObject,
        HeapItemKind::String,
        DescFlags::empty(),
    );
    assert!(one_more.is_err());
}

#[test]
fn accessor_holds_getter_and_setter() {
    let mut cx = new_context();
    let getter = object(&mut cx, vec![]);
    let getter_root = getter.cast().to_stack(&mut cx);
    let accessor = Accessor::new(&mut cx, Some(getter_root), None).unwrap();
    let ptr: HeapPtr<Accessor> = HeapPtr::from_ptr(accessor.get(&cx.handle_context).unwrap());
    let loaded = Accessor::load(&cx, ptr).unwrap();
    assert_eq!(loaded.get.unwrap().as_ptr(), getter.as_ptr());
    assert!(loaded.set.is_none());
    assert_eq!(cx.items.kind_of(ptr.as_ptr()), Some(HeapItemKind::Accessor));
    assert!(Accessor::load(&cx, getter.cast()).is_none());
    let as_value: StackRoot<Value> = accessor.cast();
    assert_eq!(Accessor::from_value(as_value).as_ptr(), accessor.as_ptr());

    // Without its own root the getter lives on through the accessor.
    let mut getter_root = getter_root;
    getter_root.replace(&mut cx.handle_context, Value::empty().as_raw_bits());
    Heap::run_gc(&mut cx);
    assert!(cx.heap.gc_heap().manages(getter.as_ptr()));
    assert!(cx.heap.gc_heap().manages(ptr.as_ptr()));
}

#[test]
fn accessor_reports_descriptor_getter_and_setter() {
    let mut accessor = Accessor {
        descriptor: HeapPtr::from_ptr(4120),
        get: Some(HeapPtr::from_ptr(4160)),
        set: Some(HeapPtr::from_ptr(4200)),
    };
    let mut recorder = Recorder { strong: vec![], weak: vec![] };
    accessor.trace(&mut recorder);
    assert_eq!(recorder.strong, vec![4120, 4160, 4200]);
    assert!(recorder.weak.is_empty());
    assert_eq!(accessor.get.unwrap().as_ptr(), 4160);

    let mut accessor =
        Accessor { descriptor: HeapPtr::uninit(), get: None, set: Some(HeapPtr::from_ptr(4200)) };
    let mut recorder = Recorder { strong: vec![], weak: vec![] };
    accessor.trace(&mut recorder);
    assert_eq!(recorder.strong, vec![4200]);
}

#[test]
fn heap_ptr_addresses() {
    let ptr: HeapPtr<u64> = HeapPtr::from_ptr(4120);
    assert_eq!(ptr.as_ptr(), 4120);
    assert_eq!(ptr.as_non_null(), 4120);
    assert!(!ptr.is_dangling());
    assert!(HeapPtr::<u64>::uninit().is_dangling());
    assert!(ptr.ptr_eq(&HeapPtr::from_ptr(4120)));
    assert!(!ptr.ptr_eq(&HeapPtr::from_ptr(4128)));
    let cast: HeapPtr<u8> = ptr.cast();
    assert_eq!(cast.as_ptr(), 4120);
    assert_eq!(cast.cast_mut::<u32>().as_ptr(), 4120);
    let gc_ptr: GcPtr<u64> = ptr.into_gc_ptr();
    assert_eq!(gc_ptr.as_ptr(), 4120);
    assert_eq!(HeapPtr::from_gc_ptr(gc_ptr).as_ptr(), 4120);
    let item: HeapPtr<AnyHeapItem> = HeapPtr::from_ptr(4120);
    assert_eq!(item.as_heap_item().as_ptr(), 4120);
    assert_eq!(ptr.clone().as_ptr(), 4120);
}

#[test]
fn values_are_pointers_or_immediates() {
    assert!(!Value::empty().is_pointer());
    assert_eq!(Value::empty().as_raw_bits(), EMPTY_BITS);
    assert!(!Value::from_raw_bits(0).is_pointer());
    assert!(!Value::from_raw_bits(9).is_pointer());
    assert!(!Value::from_raw_bits(4121).is_pointer());
    assert!(Value::from_raw_bits(4120).is_pointer());
    let ptr: HeapPtr<u8> = HeapPtr::from_ptr(4120);
    assert_eq!(Value::from_pointer(ptr).as_raw_bits(), 4120);
    assert_eq!(Value::from_pointer(ptr).as_pointer::<u8>().as_ptr(), 4120);
}

/// A visitor that writes down what is reported to it.
struct Recorder {
    strong: Vec<usize>,
    weak: Vec<usize>,
}

impl GcVisitor for Recorder {
    fn well_formed(&self) -> bool {
        unreachable!()
    }

    fn heap_view(&self) -> so2js_gc::heap_model::HeapView {
        unreachable!()
    }

    fn weak_seen(&self) -> vstd::seq::Seq<usize> {
        unreachable!()
    }

    fn visit_raw(&mut self, ptr: usize) {
        self.strong.push(ptr);
    }

    fn visit_weak_raw(&mut self, ptr: usize) {
        self.weak.push(ptr);
    }
}

#[test]
fn visitor_helpers_skip_what_is_no_pointer() {
    let mut recorder = Recorder { strong: vec![], weak: vec![] };
    recorder.visit_pointer(&HeapPtr::<u8>::from_ptr(4120));
    recorder.visit_pointer(&HeapPtr::<u8>::uninit());
    recorder.visit_pointer_opt(&Some(HeapPtr::<u8>::from_ptr(4160)));
    recorder.visit_pointer_opt::<u8>(&None);
    recorder.visit_value(&Value::from_raw_bits(4200));
    recorder.visit_value(&Value::from_raw_bits(4201));
    recorder.visit_value(&Value::empty());
    recorder.visit_property_key(&Value::from_raw_bits(4240));
    recorder.visit_rust_vtable_pointer(0x7000);
    recorder.visit_weak_pointer(&HeapPtr::<u8>::from_ptr(4280));
    recorder.visit_weak_pointer(&HeapPtr::<u8>::uninit());
    recorder.visit_weak_value(&Value::from_raw_bits(4320));
    recorder.visit_weak_value(&Value::from_raw_bits(7));
    let mut gc_ptr: GcPtr<u8> = GcPtr::from_ptr(4360);
    recorder.visit(&mut gc_ptr);
    recorder.visit(&mut GcPtr::<u8>::dangling());
    recorder.visit_opt(&mut Some(GcPtr::<u8>::from_ptr(4400)));
    recorder.visit_opt::<u8>(&mut None);
    recorder.visit_weak(&mut GcPtr::<u8>::from_ptr(4440));
    recorder.visit_weak_opt(&mut Some(GcPtr::<u8>::from_ptr(4480)));
    assert_eq!(recorder.strong, vec![4120, 4160, 4200, 4240, 4360, 4400]);
    assert_eq!(recorder.weak, vec![4280, 4320, 4440, 4480]);
}

#[test]
fn items_report_their_pointers_by_kind() {
    let mut cx = new_context();
    let target = object(&mut cx, vec![]);
    let weakly_held = object(&mut cx, vec![]);
    let item = cx
        .alloc_item(
            HeapItemKind::OrdinaryObject,
            HeapItemBody::Slots(vec![
                Slot::strong(Value::from_raw_bits(9)),
                Slot::strong(Value::from_pointer(target)),
                Slot::weak(Value::from_pointer(weakly_held)),
                Slot::strong(Value::empty()),
            ]),
        )
        .unwrap();
    let descriptor = cx.base_descriptors.get(HeapItemKind::OrdinaryObject).as_ptr();

    let mut recorder = Recorder { strong: vec![], weak: vec![] };
    cx.items.trace(item.as_ptr(), &mut recorder);
    assert_eq!(recorder.strong, vec![descriptor, target.as_ptr()]);
    assert_eq!(recorder.weak, vec![weakly_held.as_ptr()]);
    assert_eq!(cx.items.byte_size(item.as_ptr()), Some(8 + 4 * 8));
    assert_eq!(cx.items.byte_size(descriptor), Some(24));
    assert_eq!(cx.items.byte_size(64), None);
    assert_eq!(cx.items.descriptor_of(item.as_ptr()).unwrap().kind(), HeapItemKind::OrdinaryObject);
    assert!(cx.items.descriptor_of(64).is_none());

    // Taken as a weak container the slots are weak.
    let mut recorder = Recorder { strong: vec![], weak: vec![] };
    item.visit_pointers_for_kind(&cx.items, &mut recorder, HeapItemKind::WeakSetObjectWeakValueSet);
    assert_eq!(recorder.strong, vec![descriptor]);
    assert_eq!(recorder.weak, vec![target.as_ptr(), weakly_held.as_ptr()]);

    // Taken as a descriptor only the descriptor pointer counts.
    let mut recorder = Recorder { strong: vec![], weak: vec![] };
    item.visit_pointers_for_kind(&cx.items, &mut recorder, HeapItemKind::Descriptor);
    assert_eq!(recorder.strong, vec![descriptor]);

    // Where there is no item nothing is reported.
    let mut recorder = Recorder { strong: vec![], weak: vec![] };
    cx.items.trace(64, &mut recorder);
    HeapPtr::<AnyHeapItem>::from_ptr(64).visit_pointers_for_kind(
        &cx.items,
        &mut recorder,
        HeapItemKind::OrdinaryObject,
    );
    assert!(recorder.strong.is_empty());

    let mut recorder = Recorder { strong: vec![], weak: vec![] };
    WeakMapObjectMapField::visit_pointers(cx.items.get(item.as_ptr()).unwrap(), &mut recorder);
    assert_eq!(recorder.strong, vec![descriptor]);
}

#[test]
fn roots_are_visited_current_block_first() {
    let mut cx = Context::new(vtables(), 0x1000);
    for i in 0..514 {
        let _root = Value::from_raw_bits(8 * (i + 1000)).to_stack(&mut cx);
    }
    let _immediate = Value::from_raw_bits(9).to_stack(&mut cx);
    let mut recorder = Recorder { strong: vec![], weak: vec![] };
    cx.handle_context.visit_roots(&mut recorder);
    assert_eq!(recorder.strong.len(), 514);
    assert_eq!(recorder.strong[0], 8 * 1512);
    assert_eq!(recorder.strong[1], 8 * 1513);
    assert_eq!(recorder.strong[2], 8 * 1000);
    assert_eq!(recorder.strong[513], 8 * 1511);

    let mut ctx = RuntimeContext::new(&cx.handle_context, &cx.base_descriptors, &cx.items, 0x1007);
    assert_eq!(ctx.as_context_ptr(), 0x1000);
    let mut recorder = Recorder { strong: vec![], weak: vec![] };
    ctx.visit_roots(&mut recorder);
    assert_eq!(recorder.strong.len(), 514);
}

#[test]
fn store_keeps_and_prunes_items() {
    let mut items = HeapItems::new();
    assert!(items.get(4120).is_none());
    let descriptor: HeapPtr<HeapItemDescriptor> = HeapPtr::uninit();
    items.insert(4120, AnyHeapItem::new(descriptor, strong(vec![Value::empty()])));
    items.insert(4160, AnyHeapItem::new(descriptor, HeapItemBody::Bytes(vec![1, 2, 3])));
    assert!(items.set_slot(4120, 0, Value::from_raw_bits(17)));
    assert!(!items.set_slot(4120, 1, Value::from_raw_bits(17)));
    assert!(!items.set_slot(4160, 0, Value::from_raw_bits(17)));
    assert!(!items.set_slot(4200, 0, Value::from_raw_bits(17)));
    assert_eq!(items.get(4120).unwrap().slot(0).unwrap().value.as_raw_bits(), 17);
    assert_eq!(items.get(4160).unwrap().body_byte_size(), 11);
    let mut item = AnyHeapItem::new(descriptor, strong(vec![]));
    item.set_descriptor(HeapPtr::from_ptr(4120));
    assert_eq!(item.descriptor().as_ptr(), 4120);
    // An empty heap manages nothing: every body goes.
    items.prune(&so2js_gc::Heap::new());
    assert!(items.get(4120).is_none());
    assert!(items.get(4160).is_none());
}

/// A context for the managed heap alone that has the roots of a runtime stub.
struct Stub;

impl GcContext for Stub {
    fn graph(&self) -> ObjectGraph {
        unreachable!()
    }

    fn visit_roots<V: GcVisitor>(&mut self, _visitor: &mut V) {}

    fn trace_object<V: GcVisitor>(&mut self, _object_ptr: usize, _visitor: &mut V) {}

    fn as_context_ptr(&mut self) -> usize {
        0
    }
}

#[test]
fn managed_heap_is_reachable_through_the_runtime_heap() {
    let mut heap = Heap::new(0);
    let ptr: GcPtr<u8> = heap.gc_heap_mut().alloc_with_size(&mut Stub, 8).unwrap();
    assert_eq!(heap.gc_heap().num_objects(), 1);
    assert!(heap.gc_heap().manages(ptr.as_ptr()));
    heap.write_barrier(ptr.as_ptr());
    assert!(!heap.gc_heap().is_alive(ptr));
}
