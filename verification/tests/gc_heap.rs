use std::collections::HashMap;

use so2js_gc::heap_model::ObjectGraph;
use so2js_gc::{GcContext, GcPhase, GcPtr, GcVisitor, Heap};

/// A simple object that can point to another object.
#[derive(Clone, Copy)]
struct TestObject {
    value: u64,
    next: Option<GcPtr<TestObject>>,
}

impl TestObject {
    fn new(value: u64) -> TestObject {
        TestObject { value, next: None }
    }

    fn visit_pointers<V: GcVisitor>(&self, visitor: &mut V) {
        if let Some(mut next) = self.next {
            visitor.visit(&mut next);
        }
    }
}

/// A weak reference object.
#[derive(Clone, Copy)]
struct WeakRefObject {
    weak_target: Option<GcPtr<TestObject>>,
}

/// An entry of a weak map.
#[derive(Clone, Copy)]
struct WeakMapEntry {
    weak_key: Option<GcPtr<TestObject>>,
    value: Option<GcPtr<TestObject>>,
}

/// A context with a list of roots. It keeps the object bodies by their address.
struct TestContext {
    roots: Vec<GcPtr<TestObject>>,
    weak_refs: Vec<GcPtr<WeakRefObject>>,
    weak_map_entries: Vec<GcPtr<WeakMapEntry>>,
    objects: HashMap<usize, TestObject>,
    weak_ref_bodies: HashMap<usize, WeakRefObject>,
    entry_bodies: HashMap<usize, WeakMapEntry>,
}

impl TestContext {
    fn new() -> Self {
        TestContext {
            roots: Vec::new(),
            weak_refs: Vec::new(),
            weak_map_entries: Vec::new(),
            objects: HashMap::new(),
            weak_ref_bodies: HashMap::new(),
            entry_bodies: HashMap::new(),
        }
    }

    fn add_root(&mut self, ptr: GcPtr<TestObject>) {
        self.roots.push(ptr);
    }

    fn clear_roots(&mut self) {
        self.roots.clear();
    }

    fn write(&mut self, ptr: GcPtr<TestObject>, object: TestObject) {
        self.objects.insert(ptr.as_ptr(), object);
    }

    fn object(&self, ptr: GcPtr<TestObject>) -> TestObject {
        self.objects[&ptr.as_ptr()]
    }

    fn set_next(&mut self, ptr: GcPtr<TestObject>, next: Option<GcPtr<TestObject>>) {
        self.objects.get_mut(&ptr.as_ptr()).unwrap().next = next;
    }

    fn write_weak_ref(&mut self, ptr: GcPtr<WeakRefObject>, object: WeakRefObject) {
        self.weak_ref_bodies.insert(ptr.as_ptr(), object);
    }

    fn weak_ref(&self, ptr: GcPtr<WeakRefObject>) -> WeakRefObject {
        self.weak_ref_bodies[&ptr.as_ptr()]
    }

    fn write_entry(&mut self, ptr: GcPtr<WeakMapEntry>, entry: WeakMapEntry) {
        self.entry_bodies.insert(ptr.as_ptr(), entry);
    }

    fn entry(&self, ptr: GcPtr<WeakMapEntry>) -> WeakMapEntry {
        self.entry_bodies[&ptr.as_ptr()]
    }
}

impl GcContext for TestContext {
    // The graph is a notion of the proofs: nothing calls it when the program runs.
    fn graph(&self) -> ObjectGraph {
        unreachable!()
    }

    fn visit_roots<V: GcVisitor>(&mut self, visitor: &mut V) {
        for root in &mut self.roots {
            visitor.visit(root);
        }
        for weak_ref in &mut self.weak_refs {
            // The weak reference object itself is a root; its target is held weakly.
            let mut ptr: GcPtr<u8> = GcPtr::from_ptr(weak_ref.as_ptr());
            visitor.visit(&mut ptr);
        }
        for entry in &mut self.weak_map_entries {
            let mut ptr: GcPtr<u8> = GcPtr::from_ptr(entry.as_ptr());
            visitor.visit(&mut ptr);
        }
    }

    fn trace_object<V: GcVisitor>(&mut self, object_ptr: usize, visitor: &mut V) {
        // A weak reference object holds no strong pointer.
        for weak_ref in &self.weak_refs {
            if weak_ref.as_ptr() == object_ptr {
                return;
            }
        }

        // Neither does an entry of a weak map.
        for entry in &self.weak_map_entries {
            if entry.as_ptr() == object_ptr {
                return;
            }
        }

        if let Some(object) = self.objects.get(&object_ptr) {
            object.visit_pointers(visitor);
        }
    }

    fn process_weak_refs(&mut self, heap: &Heap) {
        for weak_ref in &self.weak_refs {
            let body = self.weak_ref_bodies.get_mut(&weak_ref.as_ptr()).unwrap();
            if let Some(target) = body.weak_target {
                if !heap.is_alive(target) {
                    body.weak_target = None;
                }
            }
        }

        for entry in &self.weak_map_entries {
            let body = self.entry_bodies.get_mut(&entry.as_ptr()).unwrap();
            if let Some(key) = body.weak_key {
                if !heap.is_alive(key) {
                    body.weak_key = None;
                    body.value = None;
                }
            }
        }
    }

    fn as_context_ptr(&mut self) -> usize {
        0x1000
    }
}

fn alloc_test_object(heap: &mut Heap, ctx: &mut TestContext) -> GcPtr<TestObject> {
    heap.alloc_object::<TestObject, TestContext>(ctx).unwrap()
}

// Allocation and collection

#[test]
fn test_basic_alloc() {
    let mut heap = Heap::new();
    let mut ctx = TestContext::new();

    let ptr = alloc_test_object(&mut heap, &mut ctx);
    ctx.write(ptr, TestObject::new(42));

    assert_eq!(heap.num_objects(), 1);
    assert!(heap.bytes_allocated() > 0);
}

#[test]
fn test_multiple_allocs() {
    let mut heap = Heap::new();
    let mut ctx = TestContext::new();

    for i in 0..100 {
        let ptr = alloc_test_object(&mut heap, &mut ctx);
        ctx.write(ptr, TestObject::new(i));
    }

    assert_eq!(heap.num_objects(), 100);
}

#[test]
fn test_collect_unreachable() {
    let mut heap = Heap::new();
    let mut ctx = TestContext::new();

    for i in 0..10 {
        let ptr = alloc_test_object(&mut heap, &mut ctx);
        ctx.write(ptr, TestObject::new(i));
    }

    assert_eq!(heap.num_objects(), 10);

    // Without roots everything is collected.
    heap.start_gc(&mut ctx);
    let steps = heap.finish_gc(&mut ctx);

    assert_eq!(heap.num_objects(), 0);
    // One marking step on an empty gray queue, one weak reference step, one
    // sweeping step over ten objects.
    assert_eq!(steps, 3, "10 unreachable objects should take 3 GC steps");
    assert_eq!(heap.bytes_allocated(), 0);
}

#[test]
fn test_collect_rooted() {
    let mut heap = Heap::new();
    let mut ctx = TestContext::new();

    let root = alloc_test_object(&mut heap, &mut ctx);
    ctx.write(root, TestObject::new(42));

    for i in 0..10 {
        let ptr = alloc_test_object(&mut heap, &mut ctx);
        ctx.write(ptr, TestObject::new(i));
    }

    assert_eq!(heap.num_objects(), 11);

    ctx.add_root(root);
    heap.start_gc(&mut ctx);
    let steps = heap.finish_gc(&mut ctx);

    assert_eq!(heap.num_objects(), 1);
    assert_eq!(ctx.object(root).value, 42);
    assert_eq!(steps, 3, "rooted GC should take 3 steps");
}

// Linked structures

#[test]
fn test_linked_list_reachable() {
    let mut heap = Heap::new();
    let mut ctx = TestContext::new();

    let head = alloc_test_object(&mut heap, &mut ctx);
    let a = alloc_test_object(&mut heap, &mut ctx);
    let b = alloc_test_object(&mut heap, &mut ctx);
    let c = alloc_test_object(&mut heap, &mut ctx);

    ctx.write(head, TestObject { value: 0, next: Some(a) });
    ctx.write(a, TestObject { value: 1, next: Some(b) });
    ctx.write(b, TestObject { value: 2, next: Some(c) });
    ctx.write(c, TestObject { value: 3, next: None });

    assert_eq!(heap.num_objects(), 4);

    ctx.add_root(head);
    heap.start_gc(&mut ctx);
    let steps = heap.finish_gc(&mut ctx);

    assert_eq!(heap.num_objects(), 4);
    assert_eq!(ctx.object(head).value, 0);
    assert_eq!(ctx.object(ctx.object(head).next.unwrap()).value, 1);
    assert_eq!(steps, 3, "linked list GC should take 3 steps");
}

#[test]
fn test_partial_list_unreachable() {
    let mut heap = Heap::new();
    let mut ctx = TestContext::new();

    let head = alloc_test_object(&mut heap, &mut ctx);
    let a = alloc_test_object(&mut heap, &mut ctx);
    let b = alloc_test_object(&mut heap, &mut ctx);

    ctx.write(head, TestObject { value: 0, next: Some(a) });
    ctx.write(a, TestObject { value: 1, next: Some(b) });
    ctx.write(b, TestObject { value: 2, next: None });

    // Disconnect b.
    ctx.set_next(a, None);

    assert_eq!(heap.num_objects(), 3);

    ctx.add_root(head);
    heap.start_gc(&mut ctx);
    let steps = heap.finish_gc(&mut ctx);

    // b is collected.
    assert_eq!(heap.num_objects(), 2);
    assert_eq!(steps, 3, "partial list GC should take 3 steps");
}

// Cycles

#[test]
fn test_simple_cycle_collected() {
    let mut heap = Heap::new();
    let mut ctx = TestContext::new();

    let a = alloc_test_object(&mut heap, &mut ctx);
    let b = alloc_test_object(&mut heap, &mut ctx);

    ctx.write(a, TestObject { value: 1, next: Some(b) });
    ctx.write(b, TestObject { value: 2, next: Some(a) });

    assert_eq!(heap.num_objects(), 2);

    // Without roots the cycle is collected.
    heap.start_gc(&mut ctx);
    let steps = heap.finish_gc(&mut ctx);

    assert_eq!(heap.num_objects(), 0);
    assert_eq!(steps, 3, "cycle collection should take 3 steps");
}

#[test]
fn test_self_reference_collected() {
    let mut heap = Heap::new();
    let mut ctx = TestContext::new();

    let a = alloc_test_object(&mut heap, &mut ctx);
    ctx.write(a, TestObject { value: 1, next: Some(a) });

    assert_eq!(heap.num_objects(), 1);

    heap.start_gc(&mut ctx);
    let steps = heap.finish_gc(&mut ctx);

    assert_eq!(heap.num_objects(), 0);
    assert_eq!(steps, 3, "self-reference collection should take 3 steps");
}

#[test]
fn test_rooted_cycle_survives() {
    let mut heap = Heap::new();
    let mut ctx = TestContext::new();

    let a = alloc_test_object(&mut heap, &mut ctx);
    let b = alloc_test_object(&mut heap, &mut ctx);
    let c = alloc_test_object(&mut heap, &mut ctx);

    ctx.write(a, TestObject { value: 1, next: Some(b) });
    ctx.write(b, TestObject { value: 2, next: Some(c) });
    ctx.write(c, TestObject { value: 3, next: Some(a) });

    assert_eq!(heap.num_objects(), 3);

    ctx.add_root(a);
    heap.start_gc(&mut ctx);
    let steps = heap.finish_gc(&mut ctx);

    assert_eq!(heap.num_objects(), 3);
    assert_eq!(steps, 3, "rooted cycle GC should take 3 steps");
}

#[test]
fn test_large_cycle_collected() {
    let mut heap = Heap::new();
    let mut ctx = TestContext::new();

    let n = 100;
    let mut objects: Vec<GcPtr<TestObject>> = Vec::new();

    for i in 0..n {
        let obj = alloc_test_object(&mut heap, &mut ctx);
        ctx.write(obj, TestObject::new(i as u64));
        objects.push(obj);
    }

    // Link them in a cycle.
    for i in 0..n {
        ctx.set_next(objects[i], Some(objects[(i + 1) % n]));
    }

    assert_eq!(heap.num_objects(), n);

    heap.start_gc(&mut ctx);
    let steps = heap.finish_gc(&mut ctx);

    assert_eq!(heap.num_objects(), 0);
    // One marking step, one weak reference step, one sweeping step that visits
    // all 100 objects and one that finds the end of the list.
    assert_eq!(
        steps, 4,
        "large cycle collection should take 4 steps (100 objects hit sweep limit)"
    );
}

// Stress

#[test]
fn test_gc_stress_alloc_collect() {
    let mut heap = Heap::new();
    let mut ctx = TestContext::new();

    for round in 0..10 {
        ctx.clear_roots();

        for i in 0..100 {
            let obj = alloc_test_object(&mut heap, &mut ctx);
            ctx.write(obj, TestObject::new(i));
            if i % 10 == 0 {
                ctx.add_root(obj);
            }
        }

        let expected_survivors = ctx.roots.len();

        heap.start_gc(&mut ctx);
        let steps = heap.finish_gc(&mut ctx);

        assert_eq!(
            heap.num_objects(),
            expected_survivors,
            "Round {}: expected {} survivors",
            round,
            expected_survivors
        );
        assert_eq!(
            steps, 4,
            "Round {}: stress GC should take 4 steps (100 objects)",
            round
        );
    }
}

fn build_chain(heap: &mut Heap, ctx: &mut TestContext, length: u32) -> Option<GcPtr<TestObject>> {
    if length == 0 {
        return None;
    }

    let node = alloc_test_object(heap, ctx);
    let tail = build_chain(heap, ctx, length - 1);

    ctx.write(node, TestObject { value: length as u64, next: tail });

    Some(node)
}

#[test]
fn test_gc_stress_chain() {
    let mut heap = Heap::new();
    let mut ctx = TestContext::new();

    let chain_length = 100;
    let root = build_chain(&mut heap, &mut ctx, chain_length);
    let initial_count = heap.num_objects();

    assert_eq!(initial_count, chain_length as usize);

    if let Some(r) = root {
        ctx.add_root(r);
    }
    heap.start_gc(&mut ctx);
    let steps1 = heap.finish_gc(&mut ctx);

    assert_eq!(heap.num_objects(), initial_count);
    // Two marking steps, one weak reference step, two sweeping steps.
    assert_eq!(
        steps1, 5,
        "chain trace should take 5 steps (100 objects hit both limits)"
    );

    // Now collect without the root.
    ctx.clear_roots();
    heap.start_gc(&mut ctx);
    let steps2 = heap.finish_gc(&mut ctx);

    assert_eq!(heap.num_objects(), 0);
    assert_eq!(
        steps2, 4,
        "chain sweep should take 4 steps (100 objects hit sweep limit)"
    );
}

// Edge cases

#[test]
fn test_empty_collect() {
    let mut heap = Heap::new();
    let mut ctx = TestContext::new();

    heap.start_gc(&mut ctx);
    let steps = heap.finish_gc(&mut ctx);

    assert_eq!(heap.num_objects(), 0);
    assert!(
        steps <= 3,
        "empty GC should complete quickly, got {} steps",
        steps
    );
}

#[test]
fn test_collect_twice() {
    let mut heap = Heap::new();
    let mut ctx = TestContext::new();

    let _obj = alloc_test_object(&mut heap, &mut ctx);

    heap.start_gc(&mut ctx);
    let steps1 = heap.finish_gc(&mut ctx);
    assert_eq!(heap.num_objects(), 0);
    assert!(steps1 >= 1, "first GC should do work");

    heap.start_gc(&mut ctx);
    let steps2 = heap.finish_gc(&mut ctx);
    assert_eq!(heap.num_objects(), 0);
    assert!(
        steps2 <= 3,
        "second GC on empty heap should be quick, got {} steps",
        steps2
    );
}

#[test]
fn test_alloc_after_collect() {
    let mut heap = Heap::new();
    let mut ctx = TestContext::new();

    for _ in 0..10 {
        let _obj = alloc_test_object(&mut heap, &mut ctx);
    }

    heap.start_gc(&mut ctx);
    let steps = heap.finish_gc(&mut ctx);
    assert_eq!(heap.num_objects(), 0);
    assert_eq!(steps, 3, "alloc after collect GC should take 3 steps");

    let obj = alloc_test_object(&mut heap, &mut ctx);
    ctx.write(obj, TestObject::new(42));
    assert_eq!(heap.num_objects(), 1);
    assert_eq!(ctx.object(obj).value, 42);
}

// Incremental collection

#[test]
fn test_incremental_gc_step_by_step() {
    let mut heap = Heap::new();
    let mut ctx = TestContext::new();

    for i in 0..50 {
        let obj = alloc_test_object(&mut heap, &mut ctx);
        ctx.write(obj, TestObject::new(i));
        if i < 10 {
            ctx.add_root(obj);
        }
    }

    assert_eq!(heap.num_objects(), 50);

    heap.start_gc(&mut ctx);
    assert!(heap.gc_in_progress());
    assert_eq!(heap.phase(), GcPhase::Marking);

    let mut steps = 0;
    while heap.gc_step(&mut ctx) {
        steps += 1;
        if steps > 1000 {
            panic!("GC took too many steps");
        }
    }

    assert!(!heap.gc_in_progress());
    assert_eq!(heap.phase(), GcPhase::Idle);
    assert_eq!(heap.num_objects(), 10);
}

#[test]
fn test_alloc_during_gc_marks_black() {
    let mut heap = Heap::new();
    let mut ctx = TestContext::new();

    for i in 0..10 {
        let obj = alloc_test_object(&mut heap, &mut ctx);
        ctx.write(obj, TestObject::new(i));
    }

    // Start a cycle but do not finish it.
    heap.start_gc(&mut ctx);
    assert!(heap.is_marking());

    // An object allocated now is black and is not collected in this cycle.
    let new_obj = alloc_test_object(&mut heap, &mut ctx);
    ctx.write(new_obj, TestObject::new(999));

    let steps = heap.finish_gc(&mut ctx);

    assert_eq!(heap.num_objects(), 1);
    assert_eq!(ctx.object(new_obj).value, 999);
    // The allocation has advanced the cycle by one step already.
    assert!(
        steps >= 1 && steps <= 4,
        "GC should complete in 1-4 steps, got {}",
        steps
    );
}

#[test]
fn alloc_during_cycle_survives_with_its_value() {
    let mut heap = Heap::new();
    let mut ctx = TestContext::new();

    let mut all = Vec::new();
    for i in 0..50 {
        let obj = alloc_test_object(&mut heap, &mut ctx);
        ctx.write(obj, TestObject::new(i));
        if i < 10 {
            ctx.add_root(obj);
        }
        all.push(obj);
    }

    heap.start_gc(&mut ctx);
    let newborn = alloc_test_object(&mut heap, &mut ctx);
    ctx.write(newborn, TestObject::new(999));
    heap.finish_gc(&mut ctx);

    assert_eq!(heap.num_objects(), 11);
    assert!(heap.manages(newborn.as_ptr()));
    assert_eq!(ctx.object(newborn).value, 999);
    for (i, obj) in all.iter().enumerate() {
        assert_eq!(heap.manages(obj.as_ptr()), i < 10);
    }
    for i in 0..10 {
        assert_eq!(ctx.object(all[i]).value, i as u64);
    }
}

// Weak references

#[test]
fn test_weak_ref_target_collected() {
    let mut heap = Heap::new();
    let mut ctx = TestContext::new();

    let target = alloc_test_object(&mut heap, &mut ctx);
    ctx.write(target, TestObject::new(42));

    let weak_ref = heap.alloc_object::<WeakRefObject, TestContext>(&mut ctx).unwrap();
    ctx.write_weak_ref(weak_ref, WeakRefObject { weak_target: Some(target) });

    assert_eq!(heap.num_objects(), 2);

    // Root the weak reference only, not its target.
    ctx.weak_refs.push(weak_ref);

    heap.start_gc(&mut ctx);
    let steps = heap.finish_gc(&mut ctx);

    // The target is collected, the weak reference survives.
    assert_eq!(heap.num_objects(), 1);
    assert!(ctx.weak_ref(weak_ref).weak_target.is_none());
    assert_eq!(steps, 3, "weak ref collection should take 3 steps");
}

#[test]
fn test_weak_ref_target_survives_when_rooted() {
    let mut heap = Heap::new();
    let mut ctx = TestContext::new();

    let target = alloc_test_object(&mut heap, &mut ctx);
    ctx.write(target, TestObject::new(42));

    let weak_ref = heap.alloc_object::<WeakRefObject, TestContext>(&mut ctx).unwrap();
    ctx.write_weak_ref(weak_ref, WeakRefObject { weak_target: Some(target) });

    // Root both.
    ctx.add_root(target);
    ctx.weak_refs.push(weak_ref);

    heap.start_gc(&mut ctx);
    let steps = heap.finish_gc(&mut ctx);

    // Both survive.
    assert_eq!(heap.num_objects(), 2);
    assert!(ctx.weak_ref(weak_ref).weak_target.is_some());
    assert_eq!(ctx.object(ctx.weak_ref(weak_ref).weak_target.unwrap()).value, 42);
    assert_eq!(steps, 3, "weak ref with rooted target should take 3 steps");
}

#[test]
fn test_weak_map_key_collected() {
    let mut heap = Heap::new();
    let mut ctx = TestContext::new();

    let key = alloc_test_object(&mut heap, &mut ctx);
    ctx.write(key, TestObject::new(1));

    let value = alloc_test_object(&mut heap, &mut ctx);
    ctx.write(value, TestObject::new(2));

    let entry = heap.alloc_object::<WeakMapEntry, TestContext>(&mut ctx).unwrap();
    ctx.write_entry(entry, WeakMapEntry { weak_key: Some(key), value: Some(value) });

    assert_eq!(heap.num_objects(), 3);

    // Root the entry only, not the key.
    ctx.weak_map_entries.push(entry);

    heap.start_gc(&mut ctx);
    let steps = heap.finish_gc(&mut ctx);

    // Key and value are collected, the entry survives.
    assert_eq!(heap.num_objects(), 1);
    assert!(ctx.entry(entry).weak_key.is_none());
    assert!(ctx.entry(entry).value.is_none());
    assert_eq!(steps, 3, "weak map key collection should take 3 steps");
}

#[test]
fn test_weak_map_key_survives_externally() {
    let mut heap = Heap::new();
    let mut ctx = TestContext::new();

    let key = alloc_test_object(&mut heap, &mut ctx);
    ctx.write(key, TestObject::new(1));

    let value = alloc_test_object(&mut heap, &mut ctx);
    ctx.write(value, TestObject::new(2));

    let entry = heap.alloc_object::<WeakMapEntry, TestContext>(&mut ctx).unwrap();
    ctx.write_entry(entry, WeakMapEntry { weak_key: Some(key), value: Some(value) });

    // Root both the entry and the key.
    ctx.add_root(key);
    ctx.weak_map_entries.push(entry);

    heap.start_gc(&mut ctx);
    let steps = heap.finish_gc(&mut ctx);

    // The entry and the key survive; the value is held by nothing that is traced.
    assert!(ctx.entry(entry).weak_key.is_some());
    assert_eq!(steps, 3, "weak map with rooted key should take 3 steps");
}
