use so2js_gc::runtime::rust_vtables::{RustVtable, RustVtables};
use so2js_gc::runtime::stack::handle::{HANDLE_BLOCK_BYTES, HANDLE_REGION_BASE};
use so2js_gc::runtime::{
    Context, Escapable, HeapPtr, StackRoot, StackRootContext, StackRootScope,
    StackRootScopeGuard, Value,
};
use so2js_gc::runtime::gc::heap::Heap;

fn new_context() -> Context {
    let addresses: Vec<usize> = (0..RustVtable::COUNT).map(|i| 0x7000 + 16 * i).collect();
    Context::new(RustVtables::new(addresses).unwrap(), 0x1000)
}

#[test]
fn new_stack_has_one_block_and_no_cell() {
    let handles = StackRootContext::new();
    assert_eq!(handles.handle_count(), 0);
    assert_eq!(handles.free_handle_block_count(), 0);
    let stats = handles.handle_stats();
    assert_eq!(stats.num_handles, 0);
    assert_eq!(stats.max_handles, 0);
}

#[test]
fn cells_lie_at_consecutive_addresses() {
    let mut handles = StackRootContext::new();
    let first: StackRoot<Value> = StackRoot::new(&mut handles, 17);
    let second: StackRoot<Value> = StackRoot::new(&mut handles, 25);
    assert_eq!(first.as_ptr(), HANDLE_REGION_BASE);
    assert_eq!(second.as_ptr(), HANDLE_REGION_BASE + 8);
    assert_eq!(first.get(&handles), Some(17));
    assert_eq!(second.get(&handles), Some(25));
    assert_eq!(handles.handle_count(), 2);
    assert_eq!(handles.read(HANDLE_REGION_BASE + 16), None);
    assert_eq!(handles.read(HANDLE_REGION_BASE + 4), None);
    assert_eq!(handles.read(0), None);
}

#[test]
fn replace_changes_the_cell_for_every_copy() {
    let mut handles = StackRootContext::new();
    let mut root: StackRoot<Value> = StackRoot::new(&mut handles, 17);
    let copy = root;
    let other: StackRoot<Value> = StackRoot::new(&mut handles, 33);
    root.replace(&mut handles, 99);
    assert_eq!(copy.get(&handles), Some(99));
    assert_eq!(other.get(&handles), Some(33));
    assert_eq!(root.as_ptr(), copy.as_ptr());
    let retyped: StackRoot<u32> = other.replace_into(&mut handles, 5);
    assert_eq!(retyped.as_ptr(), other.as_ptr());
    assert_eq!(other.get(&handles), Some(5));
    assert_eq!(handles.handle_count(), 2);
}

#[test]
fn dangling_root_has_no_cell() {
    let mut handles = StackRootContext::new();
    let mut dangling: StackRoot<Value> = StackRoot::dangling();
    assert!(dangling.is_dangling());
    assert_eq!(dangling.get(&handles), None);
    dangling.replace(&mut handles, 7);
    assert_eq!(handles.handle_count(), 0);
    let root: StackRoot<Value> = StackRoot::new(&mut handles, 1);
    assert!(!root.is_dangling());
    assert_eq!(root.cast::<u8>().as_ptr(), root.as_ptr());
    assert_eq!(root.as_object().as_ptr(), root.as_ptr());
    assert_eq!(root.as_string().as_ptr(), root.as_ptr());
    assert_eq!(root.as_symbol().as_ptr(), root.as_ptr());
    assert_eq!(root.as_bigint().as_ptr(), root.as_ptr());
}

#[test]
fn scope_exit_restores_the_stack_across_a_block_boundary() {
    let mut cx = new_context();
    let kept = Value::from_raw_bits(41).to_stack(&mut cx);
    let next_before = cx.handle_context.enter_scope();
    let scope = StackRootScope::enter(&cx);
    let mut roots = Vec::new();
    for i in 0..600 {
        roots.push(Value::from_raw_bits(8 * i + 1).to_stack(&mut cx));
    }
    assert_eq!(cx.handle_context.handle_count(), 601);
    assert_eq!(cx.handle_context.free_handle_block_count(), 0);
    // The first block holds 512 cells; the rest went to a second block.
    assert_eq!(roots[510].as_ptr(), HANDLE_REGION_BASE + 8 * 511);
    assert_eq!(roots[511].as_ptr(), HANDLE_REGION_BASE + HANDLE_BLOCK_BYTES);

    // A collection leaves the cells where they are.
    Heap::run_gc(&mut cx);
    assert_eq!(cx.handle_context.handle_count(), 601);
    for (i, root) in roots.iter().enumerate() {
        assert_eq!(root.get(&cx.handle_context), Some(8 * i + 1));
    }
    assert_eq!(kept.get(&cx.handle_context), Some(41));

    scope.exit(&mut cx);
    assert_eq!(cx.handle_context.handle_count(), 1);
    assert_eq!(cx.handle_context.free_handle_block_count(), 1);
    assert_eq!(kept.get(&cx.handle_context), Some(41));
    assert_eq!(roots[0].get(&cx.handle_context), None);
    assert_eq!(roots[599].get(&cx.handle_context), None);
    // The stack stands where it stood when the scope was entered.
    let next_after = cx.handle_context.enter_scope();
    let again = Value::from_raw_bits(43).to_stack(&mut cx);
    assert_eq!(again.as_ptr(), roots[0].as_ptr());
    next_after.exit(&mut cx);
    next_before.exit(&mut cx);
    assert_eq!(cx.handle_context.handle_count(), 1);
    let stats = cx.handle_context.handle_stats();
    assert_eq!(stats.num_handles, 1);
    assert_eq!(stats.max_handles, 601);
}

#[test]
fn freed_blocks_are_reused_last_in_first_out() {
    let mut cx = new_context();
    let scope = StackRootScope::enter(&cx);
    let mut roots = Vec::new();
    for i in 0..(512 * 3 + 1) {
        roots.push(Value::from_raw_bits(8 * i + 1).to_stack(&mut cx));
    }
    let second_block = roots[512].as_ptr();
    let third_block = roots[1024].as_ptr();
    let fourth_block = roots[1536].as_ptr();
    scope.exit(&mut cx);
    assert_eq!(cx.handle_context.free_handle_block_count(), 3);
    assert_eq!(cx.handle_context.handle_count(), 0);

    // The block that was freed last is the second one: it is reused first.
    let scope = StackRootScope::enter(&cx);
    let mut again = Vec::new();
    for i in 0..(512 * 3 + 1) {
        again.push(Value::from_raw_bits(8 * i + 1).to_stack(&mut cx));
    }
    assert_eq!(again[0].as_ptr(), roots[0].as_ptr());
    assert_eq!(again[512].as_ptr(), second_block);
    assert_eq!(again[1024].as_ptr(), third_block);
    assert_eq!(again[1536].as_ptr(), fourth_block);
    assert_eq!(cx.handle_context.free_handle_block_count(), 0);
    scope.exit(&mut cx);
    assert_eq!(cx.handle_context.free_handle_block_count(), 3);
}

#[test]
fn nested_scopes_form_a_stack() {
    let mut cx = new_context();
    let outer = StackRootScope::enter(&cx);
    let a = Value::from_raw_bits(1).to_stack(&mut cx);
    let inner = StackRootScope::enter(&cx);
    let b = Value::from_raw_bits(9).to_stack(&mut cx);
    let c = Value::from_raw_bits(17).to_stack(&mut cx);
    assert_eq!(cx.handle_context.handle_count(), 3);
    inner.exit(&mut cx);
    assert_eq!(cx.handle_context.handle_count(), 1);
    assert_eq!(a.get(&cx.handle_context), Some(1));
    assert_eq!(b.get(&cx.handle_context), None);
    assert_eq!(c.get(&cx.handle_context), None);
    outer.exit(&mut cx);
    assert_eq!(cx.handle_context.handle_count(), 0);
    assert_eq!(a.get(&cx.handle_context), None);
}

#[test]
fn guard_exits_its_scope_on_release() {
    let mut cx = new_context();
    let _kept = Value::from_raw_bits(1).to_stack(&mut cx);
    let guard = StackRootScopeGuard::new(&cx);
    let _a = Value::from_raw_bits(9).to_stack(&mut cx);
    let _b: StackRoot<Value> = StackRoot::empty(&mut cx);
    assert_eq!(cx.handle_context.handle_count(), 3);
    guard.release(&mut cx);
    assert_eq!(cx.handle_context.handle_count(), 1);
}

#[test]
fn escape_reroots_in_the_parent_scope() {
    let mut cx = new_context();
    let parent = Value::from_raw_bits(1).to_stack(&mut cx);
    let scope = StackRootScope::enter(&cx);
    let _temporary = Value::from_raw_bits(9).to_stack(&mut cx);
    let result = Value::from_raw_bits(4136).to_stack(&mut cx);
    assert_eq!(cx.handle_context.handle_count(), 3);
    let escaped = scope.escape(&mut cx, result);
    assert_eq!(cx.handle_context.handle_count(), 2);
    assert_eq!(escaped.get(&cx.handle_context), Some(4136));
    assert_eq!(parent.get(&cx.handle_context), Some(1));
    // The escaped root lies where the scope had begun.
    assert_eq!(escaped.as_ptr(), parent.as_ptr() + 8);
}

#[test]
fn escape_of_a_pair_reads_both_before_it_writes() {
    let mut cx = new_context();
    let scope = StackRootScope::enter(&cx);
    let first = Value::from_raw_bits(9).to_stack(&mut cx);
    let second = Value::from_raw_bits(17).to_stack(&mut cx);
    // The second comes first in the pair: its new cell takes the place of the
    // cell that the first one is still to be read from.
    let (escaped_second, escaped_first) = scope.escape(&mut cx, (second, first));
    assert_eq!(escaped_second.get(&cx.handle_context), Some(17));
    assert_eq!(escaped_first.get(&cx.handle_context), Some(9));
    assert_eq!(cx.handle_context.handle_count(), 2);
}

#[test]
fn escape_of_plain_values_makes_no_cell() {
    let mut cx = new_context();
    let scope = StackRootScope::enter(&cx);
    let _a = Value::from_raw_bits(9).to_stack(&mut cx);
    assert_eq!(scope.escape(&mut cx, 7u32), 7);
    assert_eq!(cx.handle_context.handle_count(), 0);

    let scope = StackRootScope::enter(&cx);
    let value = scope.escape(&mut cx, Value::from_raw_bits(33));
    assert_eq!(value.as_raw_bits(), 33);
    let scope = StackRootScope::enter(&cx);
    let ptr: HeapPtr<u8> = scope.escape(&mut cx, HeapPtr::from_ptr(4120));
    assert_eq!(ptr.as_ptr(), 4120);
    let scope = StackRootScope::enter(&cx);
    scope.escape(&mut cx, ());
    assert_eq!(cx.handle_context.handle_count(), 0);
}

#[test]
fn escape_of_options_and_results() {
    let mut cx = new_context();
    let scope = StackRootScope::enter(&cx);
    let root = Value::from_raw_bits(9).to_stack(&mut cx);
    let some = scope.escape(&mut cx, Some(root));
    assert_eq!(some.unwrap().get(&cx.handle_context), Some(9));
    assert_eq!(cx.handle_context.handle_count(), 1);

    let scope = StackRootScope::enter(&cx);
    let none: Option<StackRoot<Value>> = scope.escape(&mut cx, None);
    assert!(none.is_none());
    assert_eq!(cx.handle_context.handle_count(), 1);

    let scope = StackRootScope::enter(&cx);
    let root = Value::from_raw_bits(17).to_stack(&mut cx);
    let ok: Result<StackRoot<Value>, u32> = scope.escape(&mut cx, Ok(root));
    assert_eq!(ok.unwrap().get(&cx.handle_context), Some(17));
    let scope = StackRootScope::enter(&cx);
    let err: Result<StackRoot<Value>, u32> = scope.escape(&mut cx, Err(3));
    assert_eq!(err.err(), Some(3));
    assert_eq!(cx.handle_context.handle_count(), 2);
}

#[test]
fn escape_of_a_root_without_cell_is_dangling() {
    let mut cx = new_context();
    let scope = StackRootScope::enter(&cx);
    let dangling: StackRoot<Value> = StackRoot::dangling();
    let escaped = scope.escape(&mut cx, dangling);
    assert!(escaped.is_dangling());
    assert_eq!(cx.handle_context.handle_count(), 0);
    let copied = Value::from_raw_bits(9).to_stack(&mut cx).escape(&mut cx);
    assert_eq!(copied.get(&cx.handle_context), Some(9));
    assert_eq!(cx.handle_context.handle_count(), 2);
}

#[test]
fn scope_with_closure_escapes_the_result() {
    let mut cx = new_context();
    let parent = Value::from_raw_bits(1).to_stack(&mut cx);
    let result = StackRootScope::new(&mut cx, |cx: &mut Context| {
        let _a = Value::from_raw_bits(9).to_stack(cx);
        let _b = Value::from_raw_bits(17).to_stack(cx);
        Value::from_raw_bits(25).to_stack(cx)
    });
    assert_eq!(result.get(&cx.handle_context), Some(25));
    assert_eq!(cx.handle_context.handle_count(), 2);
    assert_eq!(parent.get(&cx.handle_context), Some(1));
}

#[test]
fn init_starts_over() {
    let mut cx = new_context();
    for i in 0..700 {
        let _root = Value::from_raw_bits(8 * i + 1).to_stack(&mut cx);
    }
    cx.handle_context.init();
    assert_eq!(cx.handle_context.handle_count(), 0);
    assert_eq!(cx.handle_context.free_handle_block_count(), 0);
    let root = Value::from_raw_bits(1).to_stack(&mut cx);
    assert_eq!(root.as_ptr(), HANDLE_REGION_BASE);
}
