use so2js_gc::gray_queue::GrayQueue;
use so2js_gc::heap_model::ObjectGraph;
use so2js_gc::pointer::DANGLING_ADDRESS;
use so2js_gc::{GcContext, GcPhase, GcPtr, GcVisitor, Heap};

/// A context without roots and without pointers.
struct NoRoots;

impl GcContext for NoRoots {
    fn graph(&self) -> ObjectGraph {
        unreachable!()
    }

    fn visit_roots<V: GcVisitor>(&mut self, _visitor: &mut V) {}

    fn trace_object<V: GcVisitor>(&mut self, _object_ptr: usize, _visitor: &mut V) {}

    fn as_context_ptr(&mut self) -> usize {
        64
    }
}

/// A context whose roots are a list of addresses and whose objects hold no pointers.
struct ListedRoots {
    roots: Vec<usize>,
}

impl GcContext for ListedRoots {
    fn graph(&self) -> ObjectGraph {
        unreachable!()
    }

    fn visit_roots<V: GcVisitor>(&mut self, visitor: &mut V) {
        for root in &self.roots {
            visitor.visit_raw(*root);
        }
    }

    fn trace_object<V: GcVisitor>(&mut self, _object_ptr: usize, _visitor: &mut V) {}

    fn as_context_ptr(&mut self) -> usize {
        64
    }
}

#[test]
fn gray_queue_is_last_in_first_out() {
    let mut queue = GrayQueue::new();
    assert!(queue.is_empty());
    assert_eq!(queue.len(), 0);
    assert_eq!(queue.pop(), None);
    queue.push(4096);
    queue.push(4136);
    queue.push(4176);
    assert!(!queue.is_empty());
    assert_eq!(queue.len(), 3);
    assert_eq!(queue.pop(), Some(4176));
    assert_eq!(queue.pop(), Some(4136));
    queue.push(5000);
    assert_eq!(queue.pop(), Some(5000));
    assert_eq!(queue.len(), 1);
    queue.clear();
    assert!(queue.is_empty());
    assert_eq!(queue.pop(), None);
    assert!(GrayQueue::default().is_empty());
}

#[test]
fn gc_ptr_addresses() {
    let ptr: GcPtr<u64> = GcPtr::from_ptr(4120);
    assert_eq!(ptr.as_ptr(), 4120);
    assert_eq!(ptr.as_non_null(), 4120);
    assert!(!ptr.is_dangling());
    let same: GcPtr<u64> = GcPtr::from_non_null(4120);
    let other: GcPtr<u64> = GcPtr::from_ptr(4160);
    assert!(ptr.ptr_eq(&same));
    assert!(!ptr.ptr_eq(&other));
    let cast: GcPtr<u8> = ptr.cast();
    assert_eq!(cast.as_ptr(), 4120);
    let cast_again: GcPtr<u32> = cast.cast_mut();
    assert_eq!(cast_again.as_ptr(), 4120);
    let copy = ptr;
    assert_eq!(copy.clone().as_ptr(), ptr.as_ptr());
}

#[test]
fn gc_ptr_dangling() {
    let dangling: GcPtr<u64> = GcPtr::dangling();
    assert!(dangling.is_dangling());
    assert_eq!(dangling.as_ptr(), DANGLING_ADDRESS);
    let uninit: GcPtr<u8> = GcPtr::uninit();
    assert!(uninit.is_dangling());
    assert!(dangling.ptr_eq(&uninit.cast()));
}

#[test]
fn new_heap_is_empty_and_idle() {
    let heap = Heap::new();
    assert_eq!(heap.num_objects(), 0);
    assert_eq!(heap.bytes_allocated(), 0);
    assert_eq!(heap.phase(), GcPhase::Idle);
    assert!(!heap.gc_in_progress());
    assert!(!heap.is_marking());
    assert!(!heap.should_gc());
    let heap = Heap::default();
    assert_eq!(heap.num_objects(), 0);
    assert_eq!(GcPhase::default(), GcPhase::Idle);
}

#[test]
fn allocations_hand_out_consecutive_blocks() {
    let mut heap = Heap::new();
    let mut ctx = NoRoots;
    let first: GcPtr<u8> = heap.alloc_with_size(&mut ctx, 16).unwrap();
    let second: GcPtr<u8> = heap.alloc_with_size(&mut ctx, 1).unwrap();
    let third: GcPtr<u8> = heap.alloc_with_size(&mut ctx, 0).unwrap();
    // The first header lies at 4096, each body 24 bytes behind its header, and
    // each block is rounded up to 8 bytes.
    assert_eq!(first.as_ptr(), 4096 + 24);
    assert_eq!(second.as_ptr(), 4096 + 40 + 24);
    assert_eq!(third.as_ptr(), 4096 + 40 + 32 + 24);
    assert_eq!(first.as_ptr() % 8, 0);
    assert_eq!(second.as_ptr() % 8, 0);
}

#[test]
fn bytes_allocated_is_the_sum_of_the_sizes() {
    let mut heap = Heap::new();
    let mut ctx = NoRoots;
    let sizes = [16usize, 1, 0, 100, 8, 7];
    let mut sum = 0;
    for (count, size) in sizes.iter().enumerate() {
        let _ptr: GcPtr<u8> = heap.alloc_with_size(&mut ctx, *size).unwrap();
        sum += 24 + size;
        assert_eq!(heap.bytes_allocated(), sum);
        assert_eq!(heap.num_objects(), count + 1);
    }
    assert_eq!(heap.bytes_allocated(), 24 * 6 + 132);
}

#[test]
fn alloc_fails_when_no_block_can_be_had() {
    let mut heap = Heap::new();
    let mut ctx = NoRoots;
    let huge: Result<GcPtr<u8>, _> = heap.alloc_with_size(&mut ctx, usize::MAX);
    assert!(huge.is_err());
    let still_huge: Result<GcPtr<u8>, _> = heap.alloc_with_size(&mut ctx, usize::MAX / 2);
    assert!(still_huge.is_err());
    assert_eq!(heap.num_objects(), 0);
    assert_eq!(heap.bytes_allocated(), 0);

    // Half of the address space is the limit: a second block of a quarter does not fit.
    let quarter = usize::MAX / 4;
    let first: Result<GcPtr<u8>, _> = heap.alloc_with_size(&mut ctx, quarter);
    assert!(first.is_ok());
    let second: Result<GcPtr<u8>, _> = heap.alloc_with_size(&mut ctx, quarter);
    assert!(second.is_err());
    assert_eq!(heap.num_objects(), 1);
    let small: Result<GcPtr<u8>, _> = heap.alloc_with_size(&mut ctx, 8);
    assert!(small.is_ok());
    assert_eq!(heap.num_objects(), 2);
}

#[test]
fn failed_alloc_still_advances_the_cycle() {
    let mut heap = Heap::new();
    let mut ctx = NoRoots;
    let _ptr: GcPtr<u8> = heap.alloc_with_size(&mut ctx, 8).unwrap();
    heap.start_gc(&mut ctx);
    assert_eq!(heap.phase(), GcPhase::Marking);
    let huge: Result<GcPtr<u8>, _> = heap.alloc_with_size(&mut ctx, usize::MAX);
    assert!(huge.is_err());
    assert_eq!(heap.phase(), GcPhase::WeakRefProcessing);
}

#[test]
fn should_gc_above_the_threshold() {
    let mut heap = Heap::new();
    let mut ctx = NoRoots;
    // One MiB is the threshold: it must be exceeded.
    let _a: GcPtr<u8> = heap.alloc_with_size(&mut ctx, 1024 * 1024 - 24).unwrap();
    assert_eq!(heap.bytes_allocated(), 1024 * 1024);
    assert!(!heap.should_gc());
    let _b: GcPtr<u8> = heap.alloc_with_size(&mut ctx, 0).unwrap();
    assert!(heap.should_gc());
    heap.start_gc(&mut ctx);
    // Not while a collection is in progress.
    assert!(!heap.should_gc());
    heap.finish_gc(&mut ctx);
    assert!(!heap.should_gc());
}

#[test]
fn threshold_is_twice_the_live_bytes() {
    let mut heap = Heap::new();
    let big: GcPtr<u8> = heap.alloc_with_size(&mut NoRoots, 1024 * 1024).unwrap();
    let mut ctx = ListedRoots { roots: vec![big.as_ptr()] };
    heap.start_gc(&mut ctx);
    heap.finish_gc(&mut ctx);
    assert_eq!(heap.bytes_allocated(), 1024 * 1024 + 24);
    // The threshold is 2 MiB + 48 now: one more MiB stays below it.
    let _more: GcPtr<u8> = heap.alloc_with_size(&mut ctx, 1024 * 1024).unwrap();
    assert_eq!(heap.bytes_allocated(), 2 * (1024 * 1024 + 24));
    assert!(!heap.should_gc());
    let _one: GcPtr<u8> = heap.alloc_with_size(&mut ctx, 0).unwrap();
    assert!(heap.should_gc());
}

#[test]
fn start_twice_is_start_once() {
    let mut heap = Heap::new();
    let a: GcPtr<u8> = heap.alloc_with_size(&mut NoRoots, 8).unwrap();
    let b: GcPtr<u8> = heap.alloc_with_size(&mut NoRoots, 8).unwrap();
    let mut ctx = ListedRoots { roots: vec![a.as_ptr()] };
    heap.start_gc(&mut ctx);
    assert!(heap.is_alive(a));
    assert!(!heap.is_alive(b));
    // A second start with other roots changes nothing.
    let mut other = ListedRoots { roots: vec![b.as_ptr()] };
    heap.start_gc(&mut other);
    assert_eq!(heap.phase(), GcPhase::Marking);
    assert!(!heap.is_alive(b));
    let steps = heap.finish_gc(&mut ctx);
    assert_eq!(steps, 3);
    assert_eq!(heap.num_objects(), 1);
    assert!(heap.manages(a.as_ptr()));
    assert!(!heap.manages(b.as_ptr()));
}

#[test]
fn step_on_idle_heap_does_nothing() {
    let mut heap = Heap::new();
    let mut ctx = NoRoots;
    let _a: GcPtr<u8> = heap.alloc_with_size(&mut ctx, 8).unwrap();
    assert!(!heap.gc_step(&mut ctx));
    assert_eq!(heap.phase(), GcPhase::Idle);
    assert_eq!(heap.num_objects(), 1);
    // Finishing an idle heap takes the one step that finds it idle.
    assert_eq!(heap.finish_gc(&mut ctx), 1);
    assert_eq!(heap.num_objects(), 1);
}

#[test]
fn phases_follow_the_cycle() {
    let mut heap = Heap::new();
    let mut ctx = NoRoots;
    for _ in 0..3 {
        let _a: GcPtr<u8> = heap.alloc_with_size(&mut ctx, 8).unwrap();
    }
    heap.start_gc(&mut ctx);
    assert_eq!(heap.phase(), GcPhase::Marking);
    assert!(heap.is_marking());
    assert!(heap.gc_step(&mut ctx));
    assert_eq!(heap.phase(), GcPhase::WeakRefProcessing);
    assert!(!heap.is_marking());
    assert!(heap.gc_in_progress());
    assert!(heap.gc_step(&mut ctx));
    assert_eq!(heap.phase(), GcPhase::Sweeping);
    assert!(!heap.gc_step(&mut ctx));
    assert_eq!(heap.phase(), GcPhase::Idle);
    assert_eq!(heap.num_objects(), 0);
}

#[test]
fn write_barrier_marks_only_while_marking() {
    let mut heap = Heap::new();
    let a: GcPtr<u8> = heap.alloc_with_size(&mut NoRoots, 8).unwrap();
    let b: GcPtr<u8> = heap.alloc_with_size(&mut NoRoots, 8).unwrap();
    let c: GcPtr<u8> = heap.alloc_with_size(&mut NoRoots, 8).unwrap();
    let mut ctx = ListedRoots { roots: vec![a.as_ptr()] };

    // Idle: the barrier does nothing.
    heap.write_barrier(b);
    assert!(!heap.is_alive(b));

    heap.start_gc(&mut ctx);
    // Marking: a white target turns gray and survives the cycle.
    heap.write_barrier(b);
    assert!(heap.is_alive(b));
    heap.write_barrier_raw(0);
    heap.write_barrier(GcPtr::<u8>::dangling());
    heap.write_barrier_raw(123456);

    assert!(heap.gc_step(&mut ctx));
    assert_eq!(heap.phase(), GcPhase::WeakRefProcessing);
    // Not marking any more: the barrier does nothing.
    heap.write_barrier(c);
    assert!(!heap.is_alive(c));

    heap.finish_gc(&mut ctx);
    assert_eq!(heap.num_objects(), 2);
    assert!(heap.manages(a.as_ptr()));
    assert!(heap.manages(b.as_ptr()));
    assert!(!heap.manages(c.as_ptr()));
}

#[test]
fn mark_gray_while_marking() {
    let mut heap = Heap::new();
    let a: GcPtr<u8> = heap.alloc_with_size(&mut NoRoots, 8).unwrap();
    let b: GcPtr<u8> = heap.alloc_with_size(&mut NoRoots, 8).unwrap();
    let mut ctx = NoRoots;
    heap.start_gc(&mut ctx);
    heap.mark_gray_ptr(a);
    heap.mark_gray_ptr(GcPtr::<u8>::dangling());
    heap.mark_gray_raw(0);
    heap.mark_gray_raw(a.as_ptr());
    heap.mark_gray_raw(b.as_ptr() + 8);
    assert!(heap.is_alive(a));
    assert!(heap.is_alive_raw(a.as_ptr()));
    assert!(!heap.is_alive(b));
    assert!(!heap.is_alive_raw(0));
    assert!(!heap.is_alive(GcPtr::<u8>::dangling()));
    heap.finish_gc(&mut ctx);
    assert_eq!(heap.num_objects(), 1);
    assert!(heap.manages(a.as_ptr()));
}

#[test]
fn survivors_are_white_after_the_cycle() {
    let mut heap = Heap::new();
    let mut kept = Vec::new();
    for i in 0..20 {
        let ptr: GcPtr<u8> = heap.alloc_with_size(&mut NoRoots, 8).unwrap();
        if i % 2 == 0 {
            kept.push(ptr.as_ptr());
        }
    }
    let mut ctx = ListedRoots { roots: kept.clone() };
    heap.start_gc(&mut ctx);
    for root in &kept {
        assert!(heap.is_alive_raw(*root));
    }
    heap.finish_gc(&mut ctx);
    assert_eq!(heap.num_objects(), 10);
    for root in &kept {
        // Still there, at the same address, and white again.
        assert!(heap.manages(*root));
        assert!(!heap.is_alive_raw(*root));
    }
}

#[test]
fn alloc_during_sweeping_survives_and_stays_listed() {
    let mut heap = Heap::new();
    let mut ctx = NoRoots;
    for _ in 0..250 {
        let _a: GcPtr<u8> = heap.alloc_with_size(&mut ctx, 8).unwrap();
    }
    heap.start_gc(&mut ctx);
    assert!(heap.gc_step(&mut ctx));
    assert!(heap.gc_step(&mut ctx));
    assert_eq!(heap.phase(), GcPhase::Sweeping);
    // The first sweeping step frees the 100 objects at the head of the list.
    assert!(heap.gc_step(&mut ctx));
    // The allocation sweeps 100 more and puts a black object at the head.
    let newborn: GcPtr<u8> = heap.alloc_with_size(&mut ctx, 8).unwrap();
    assert_eq!(heap.phase(), GcPhase::Sweeping);
    assert!(heap.is_alive(newborn));
    let steps = heap.finish_gc(&mut ctx);
    assert_eq!(steps, 1);
    assert_eq!(heap.num_objects(), 1);
    assert_eq!(heap.bytes_allocated(), 32);
    assert!(heap.manages(newborn.as_ptr()));
    // The sweep cursor never passed the newborn: it is still black.
    assert!(heap.is_alive(newborn));

    // The next cycle finds it on the list and colors it white.
    heap.start_gc(&mut ctx);
    heap.finish_gc(&mut ctx);
    assert_eq!(heap.num_objects(), 1);
    assert!(!heap.is_alive(newborn));

    // Without a root the cycle after that frees it.
    heap.start_gc(&mut ctx);
    heap.finish_gc(&mut ctx);
    assert_eq!(heap.num_objects(), 0);
    assert_eq!(heap.bytes_allocated(), 0);
    assert!(!heap.manages(newborn.as_ptr()));
}

/// A context with one root and one pointer from the root to a child.
struct Pair {
    parent: usize,
    child: usize,
}

impl GcContext for Pair {
    fn graph(&self) -> ObjectGraph {
        unreachable!()
    }

    fn visit_roots<V: GcVisitor>(&mut self, visitor: &mut V) {
        visitor.visit_raw(self.parent);
    }

    fn trace_object<V: GcVisitor>(&mut self, object_ptr: usize, visitor: &mut V) {
        if object_ptr == self.parent {
            visitor.visit_raw(self.child);
        }
    }

    fn as_context_ptr(&mut self) -> usize {
        64
    }
}

#[test]
fn object_born_during_sweeping_is_scanned_one_cycle_late() {
    let mut heap = Heap::new();
    let mut ctx = NoRoots;
    for _ in 0..250 {
        let _a: GcPtr<u8> = heap.alloc_with_size(&mut ctx, 8).unwrap();
    }
    heap.start_gc(&mut ctx);
    assert!(heap.gc_step(&mut ctx));
    assert!(heap.gc_step(&mut ctx));
    assert!(heap.gc_step(&mut ctx));
    let parent: GcPtr<u8> = heap.alloc_with_size(&mut ctx, 8).unwrap();
    assert_eq!(heap.phase(), GcPhase::Sweeping);
    heap.finish_gc(&mut ctx);
    // Born black behind the cursor, the parent is still black.
    assert!(heap.is_alive(parent));

    let child: GcPtr<u8> = heap.alloc_with_size(&mut ctx, 8).unwrap();
    let mut pair = Pair { parent: parent.as_ptr(), child: child.as_ptr() };
    heap.start_gc(&mut pair);
    heap.finish_gc(&mut pair);
    // The black parent was not scanned in this cycle, so nothing marked the child.
    assert!(heap.manages(parent.as_ptr()));
    assert!(!heap.manages(child.as_ptr()));
    assert_eq!(heap.num_objects(), 1);

    // From now on the parent is white at the start of a cycle and is scanned.
    let child: GcPtr<u8> = heap.alloc_with_size(&mut ctx, 8).unwrap();
    let mut pair = Pair { parent: parent.as_ptr(), child: child.as_ptr() };
    heap.start_gc(&mut pair);
    heap.finish_gc(&mut pair);
    assert!(heap.manages(parent.as_ptr()));
    assert!(heap.manages(child.as_ptr()));
    assert_eq!(heap.num_objects(), 2);
}

#[test]
fn alloc_during_cycle_of_fifty() {
    let mut heap = Heap::new();
    let mut roots = Vec::new();
    for i in 0..50 {
        let ptr: GcPtr<u64> = heap.alloc_object(&mut NoRoots).unwrap();
        if i < 10 {
            roots.push(ptr.as_ptr());
        }
    }
    let mut ctx = ListedRoots { roots: roots.clone() };
    heap.start_gc(&mut ctx);
    let newborn: GcPtr<u64> = heap.alloc_object(&mut ctx).unwrap();
    assert!(heap.is_alive(newborn));
    heap.finish_gc(&mut ctx);
    assert_eq!(heap.num_objects(), 11);
    assert!(heap.manages(newborn.as_ptr()));
    for root in &roots {
        assert!(heap.manages(*root));
    }
}
