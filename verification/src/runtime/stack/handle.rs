//! The stack of root cells and its scopes.
//!
//! A [`StackRootContext`] is a stack of word-sized cells, held in blocks of a
//! fixed number of cells. A [`StackRoot`] is the address of one cell; the
//! address stays the same until the scope in which the cell was made is
//! exited. A [`StackRootScope`] remembers where the stack stood when the scope
//! was entered, and exiting the scope puts the stack back there.

use crate::heap_model::lemma_mark_all_concat;
use crate::pointer::DANGLING_ADDRESS;
use crate::runtime::context::Context;
use crate::runtime::gc::heap_item::AnyHeapItem;
use crate::runtime::gc::heap_visitor::GcVisitorExt;
use crate::runtime::gc::pointer::HeapPtr;
use crate::runtime::heap_item_descriptor::HeapItemDescriptor;
use crate::runtime::value::{
    is_pointer_bits, lemma_pointers_in_concat, lemma_pointers_in_contains, pointers_in, BigIntValue, ObjectValue,
    StringValue, SymbolValue, Value, EMPTY_BITS,
};
use crate::visitor::GcVisitor;
use std::marker::PhantomData;
use vstd::prelude::*;

verus! {

/// What a cell holds: one word, a tagged value or the address of a heap item.
pub type StackRootContents = usize;

/// Number of cells in one block.
pub const HANDLE_BLOCK_SIZE: usize = 512;

/// Size of the cells of one block in bytes.
pub const HANDLE_BLOCK_BYTES: usize = 4096;

/// The address of the first cell of the first block. The blocks lie in the
/// upper half of the address space, apart from the heap items.
pub const HANDLE_REGION_BASE: usize = usize::MAX / 2 + 1;

/// The number of blocks that fit in the address space.
pub open spec fn max_blocks() -> int {
    (usize::MAX - HANDLE_REGION_BASE) / (HANDLE_BLOCK_BYTES as int)
}

/// One live cell.
pub struct CellView {
    /// The address of the cell.
    pub address: usize,
    /// What the cell holds.
    pub contents: StackRootContents,
}

/// A block of cells.
pub struct StackRootBlock {
    ptrs: Vec<StackRootContents>,
    start_ptr: usize,
    end_ptr: usize,
}

impl StackRootBlock {
    /// The invariant of a block: it has all of its cells, and they lie at
    /// consecutive aligned addresses from `start_ptr` up to `end_ptr`.
    pub closed spec fn wf(&self) -> bool {
        &&& self.ptrs.len() == HANDLE_BLOCK_SIZE
        &&& self.start_ptr >= HANDLE_REGION_BASE
        &&& (self.start_ptr - HANDLE_REGION_BASE) % (HANDLE_BLOCK_BYTES as int) == 0
        &&& self.end_ptr == self.start_ptr + HANDLE_BLOCK_BYTES
    }

    /// The address of the first cell.
    pub closed spec fn start(&self) -> usize {
        self.start_ptr
    }

    /// The address behind the last cell.
    pub closed spec fn end(&self) -> usize {
        self.end_ptr
    }

    /// A block of zeroed cells that starts at `start_ptr`.
    fn new(start_ptr: usize) -> (block: StackRootBlock)
        requires
            start_ptr >= HANDLE_REGION_BASE,
            (start_ptr - HANDLE_REGION_BASE) % (HANDLE_BLOCK_BYTES as int) == 0,
            start_ptr + HANDLE_BLOCK_BYTES <= usize::MAX,
        ensures
            block.wf(),
            block.start() == start_ptr,
    {
        let mut ptrs: Vec<StackRootContents> = Vec::new();
        let mut i: usize = 0;
        while i < HANDLE_BLOCK_SIZE
            invariant
                i <= HANDLE_BLOCK_SIZE,
                ptrs.len() == i,
            decreases HANDLE_BLOCK_SIZE - i,
        {
            ptrs.push(0);
            i += 1;
        }
        StackRootBlock { ptrs, start_ptr, end_ptr: start_ptr + HANDLE_BLOCK_BYTES }
    }
}

/// Counts of the cells in use.
#[derive(Clone, Copy, Debug)]
pub struct StackRootStats {
    /// The number of cells in use now.
    pub num_handles: usize,
    /// The largest number of cells that were in use at once.
    pub max_handles: usize,
}

/// The stack of root cells of one context.
pub struct StackRootContext {
    /// The address of the next cell to hand out, within the current block.
    next_ptr: usize,
    /// The address behind the last cell of the current block.
    end_ptr: usize,
    /// The chain of blocks in use; the last one is the current block.
    blocks: Vec<StackRootBlock>,
    /// The chain of free blocks; the last one is reused first.
    free_blocks: Vec<StackRootBlock>,
    /// The number of blocks made so far.
    blocks_created: usize,
    /// The largest number of cells that were in use at once.
    max_handles: usize,
}

impl View for StackRootContext {
    type V = Seq<CellView>;

    /// The live cells from the bottom of the stack to its top.
    closed spec fn view(&self) -> Seq<CellView> {
        Seq::new(self.count() as nat, |i: int| self.cell(i))
    }
}

impl StackRootContext {
    /// The number of cells in use in the current block.
    spec fn used(&self) -> int {
        (self.next_ptr - self.blocks@.last().start_ptr) / 8
    }

    /// The number of live cells.
    spec fn count(&self) -> int {
        (self.blocks.len() - 1) * HANDLE_BLOCK_SIZE + self.used()
    }

    /// The cell at position `i` of the stack.
    spec fn cell(&self, i: int) -> CellView {
        let block = self.blocks@[i / (HANDLE_BLOCK_SIZE as int)];
        CellView {
            address: (block.start_ptr + 8 * (i % (HANDLE_BLOCK_SIZE as int))) as usize,
            contents: block.ptrs@[i % (HANDLE_BLOCK_SIZE as int)],
        }
    }

    /// The chain of free blocks as the addresses of their first cells; the last
    /// one is reused first.
    pub closed spec fn free_list(&self) -> Seq<usize> {
        Seq::new(self.free_blocks.len() as nat, |i: int| self.free_blocks@[i].start_ptr)
    }

    /// The chain of blocks in use as the addresses of their first cells; the
    /// last one is the current block.
    pub closed spec fn block_list(&self) -> Seq<usize> {
        Seq::new(self.blocks.len() as nat, |i: int| self.blocks@[i].start_ptr)
    }

    /// The address of the next cell to hand out.
    pub closed spec fn next(&self) -> usize {
        self.next_ptr
    }

    /// The address behind the last cell of the current block.
    pub closed spec fn end(&self) -> usize {
        self.end_ptr
    }

    /// The largest number of cells that were in use at once.
    pub closed spec fn peak(&self) -> int {
        self.max_handles as int
    }

    /// The number of cells that can still be handed out: as many as fit in the
    /// address space, less those that are live.
    pub open spec fn room(&self) -> int {
        HANDLE_BLOCK_SIZE * max_blocks() - self@.len()
    }

    /// The cells that can still be handed out are those left in the current
    /// block, those of the free blocks, and those of the blocks for which the
    /// address space has room.
    proof fn lemma_room(&self)
        requires
            self.wf(),
        ensures
            self.room() == (self.end_ptr - self.next_ptr) / 8 + HANDLE_BLOCK_SIZE * (
            self.free_blocks.len() + max_blocks() - self.blocks_created),
    {
        assert(self.blocks@[self.blocks.len() - 1].wf());
    }

    /// Whether one more cell can be handed out.
    pub open spec fn has_room(&self) -> bool {
        self.room() >= 1
    }

    /// The invariant of the two chains of blocks.
    spec fn chain_wf(&self) -> bool {
        &&& self.blocks.len() >= 1
        &&& forall|i: int|
            0 <= i < self.blocks.len() ==> (#[trigger] self.blocks@[i]).wf() && self.blocks@[i].start_ptr
                < HANDLE_REGION_BASE + self.blocks_created * HANDLE_BLOCK_BYTES
        &&& forall|i: int|
            0 <= i < self.free_blocks.len() ==> (#[trigger] self.free_blocks@[i]).wf()
                && self.free_blocks@[i].start_ptr < HANDLE_REGION_BASE + self.blocks_created
                * HANDLE_BLOCK_BYTES
        &&& forall|i: int, j: int|
            0 <= i < self.blocks.len() && 0 <= j < self.blocks.len() && i != j ==> (
            #[trigger] self.blocks@[i]).start_ptr != (#[trigger] self.blocks@[j]).start_ptr
        &&& forall|i: int, j: int|
            0 <= i < self.free_blocks.len() && 0 <= j < self.free_blocks.len() && i != j ==> (
            #[trigger] self.free_blocks@[i]).start_ptr != (
            #[trigger] self.free_blocks@[j]).start_ptr
        &&& forall|i: int, j: int|
            0 <= i < self.blocks.len() && 0 <= j < self.free_blocks.len() ==> (
            #[trigger] self.blocks@[i]).start_ptr != (#[trigger] self.free_blocks@[j]).start_ptr
        &&& self.blocks.len() + self.free_blocks.len() == self.blocks_created
        &&& self.blocks_created <= max_blocks()
    }

    /// The invariant of the stack of cells.
    pub closed spec fn wf(&self) -> bool {
        &&& self.chain_wf()
        &&& self.end_ptr == self.blocks@.last().end_ptr
        &&& self.blocks@.last().start_ptr <= self.next_ptr <= self.end_ptr
        &&& (self.next_ptr - self.blocks@.last().start_ptr) % 8 == 0
        &&& self.count() <= self.max_handles
    }

    /// A stack of cells with its first block and no cell in use.
    pub fn new() -> (context: StackRootContext)
        ensures
            context.wf(),
            context@ == Seq::<CellView>::empty(),
            context.free_list() == Seq::<usize>::empty(),
            context.next() == HANDLE_REGION_BASE,
            context.end() == HANDLE_REGION_BASE + HANDLE_BLOCK_BYTES,
            context.room() == HANDLE_BLOCK_SIZE * max_blocks(),
            context.peak() == 0,
    {
        let first_block = StackRootBlock::new(HANDLE_REGION_BASE);
        let next_ptr = first_block.start_ptr;
        let end_ptr = first_block.end_ptr;
        let mut blocks: Vec<StackRootBlock> = Vec::new();
        blocks.push(first_block);
        let context = StackRootContext {
            next_ptr,
            end_ptr,
            blocks,
            free_blocks: Vec::new(),
            blocks_created: 1,
            max_handles: 0,
        };
        assert(context@ =~= Seq::<CellView>::empty());
        assert(context.free_list() =~= Seq::<usize>::empty());
        context
    }

    /// Puts the stack back to its first state: one new block and no cell in use.
    pub fn init(&mut self)
        ensures
            final(self).wf(),
            final(self)@ == Seq::<CellView>::empty(),
            final(self).free_list() == Seq::<usize>::empty(),
            final(self).room() == HANDLE_BLOCK_SIZE * max_blocks(),
            final(self).peak() == 0,
    {
        *self = StackRootContext::new();
    }
}

/// What the first `k` blocks of a chain hold, the block at position `k - 1` first
/// and the block at the bottom last.
spec fn earlier_values(blocks: Seq<StackRootBlock>, k: int) -> Seq<StackRootContents>
    decreases k,
{
    if k <= 0 {
        Seq::empty()
    } else {
        blocks[k - 1].ptrs@ + earlier_values(blocks, k - 1)
    }
}

/// The cells `cells` after `contents` has been put into the cell at `address`.
pub open spec fn replace_at(
    cells: Seq<CellView>,
    address: usize,
    contents: StackRootContents,
) -> Seq<CellView> {
    Seq::new(
        cells.len(),
        |i: int|
            if cells[i].address == address {
                CellView { address, contents }
            } else {
                cells[i]
            },
    )
}

/// What happens to the stack of root cells.
pub enum CellOp {
    /// A new cell is made on top.
    Make(CellView),
    /// New contents are put into the cell at an address.
    Replace(usize, StackRootContents),
    /// A scope is exited that was entered when the given number of cells was live.
    Exit(int),
    /// The heap allocates or collects.
    Collect,
}

/// The live cells after `op`.
pub open spec fn apply_op(cells: Seq<CellView>, op: CellOp) -> Seq<CellView> {
    match op {
        CellOp::Make(cell) => cells.push(cell),
        CellOp::Replace(address, contents) => replace_at(cells, address, contents),
        CellOp::Exit(position) => if 0 <= position <= cells.len() {
            cells.take(position)
        } else {
            cells
        },
        CellOp::Collect => cells,
    }
}

/// The live cells after each of `ops` in turn.
pub open spec fn apply_ops(cells: Seq<CellView>, ops: Seq<CellOp>) -> Seq<CellView>
    decreases ops.len(),
{
    if ops.len() == 0 {
        cells
    } else {
        apply_op(apply_ops(cells, ops.drop_last()), ops.last())
    }
}

/// A cell stays at its address as long as no scope is exited that was entered
/// before the cell was made: whatever cells are made, whatever contents are
/// replaced, whatever scopes inside are exited, and however often the heap
/// allocates and collects. Its contents change only when they are replaced.
pub proof fn law_cell_address_is_stable(cells: Seq<CellView>, ops: Seq<CellOp>, i: int)
    requires
        0 <= i < cells.len(),
        forall|k: int|
            0 <= k < ops.len() ==> match #[trigger] ops[k] {
                CellOp::Exit(position) => position > i,
                _ => true,
            },
    ensures
        i < apply_ops(cells, ops).len(),
        apply_ops(cells, ops)[i].address == cells[i].address,
        (forall|k: int|
            0 <= k < ops.len() ==> match #[trigger] ops[k] {
                CellOp::Replace(address, _) => address != cells[i].address,
                _ => true,
            }) ==> apply_ops(cells, ops)[i] == cells[i],
    decreases ops.len(),
{
    if ops.len() > 0 {
        let earlier = ops.drop_last();
        assert forall|k: int| 0 <= k < earlier.len() implies match #[trigger] earlier[k] {
            CellOp::Exit(position) => position > i,
            _ => true,
        } by {
            assert(earlier[k] == ops[k]);
        }
        law_cell_address_is_stable(cells, earlier, i);
        assert(ops.last() == ops[ops.len() - 1]);
        if forall|k: int|
            0 <= k < ops.len() ==> match #[trigger] ops[k] {
                CellOp::Replace(address, _) => address != cells[i].address,
                _ => true,
            } {
            assert forall|k: int| 0 <= k < earlier.len() implies match #[trigger] earlier[k] {
                CellOp::Replace(address, _) => address != cells[i].address,
                _ => true,
            } by {
                assert(earlier[k] == ops[k]);
            }
        }
    }
}

/// The blocks of `list` behind the first `keep`, last one first: the order in
/// which they are taken off a chain.
pub open spec fn popped(list: Seq<usize>, keep: int) -> Seq<usize> {
    Seq::new((list.len() - keep) as nat, |i: int| list[list.len() - 1 - i])
}

/// Where the stack of cells stood when a scope was entered. Exiting the scope
/// puts the stack back there.
pub struct StackRootScope {
    next_ptr: usize,
    end_ptr: usize,
}

impl StackRootScope {
    /// The address of the next cell when the scope was entered.
    pub closed spec fn next(&self) -> usize {
        self.next_ptr
    }

    /// The address behind the block that was current when the scope was entered.
    pub closed spec fn end(&self) -> usize {
        self.end_ptr
    }
}

impl StackRootContext {
    /// The position in the chain of the block that was current when `scope` was entered.
    pub closed spec fn scope_depth(&self, scope: &StackRootScope) -> int {
        choose|d: int| 0 <= d < self.blocks.len() && (#[trigger] self.blocks@[d]).end_ptr
            == scope.end_ptr
    }

    /// The number of cells that were live when `scope` was entered.
    pub closed spec fn scope_position(&self, scope: &StackRootScope) -> int {
        let d = self.scope_depth(scope);
        d * HANDLE_BLOCK_SIZE + (scope.next_ptr - self.blocks@[d].start_ptr) / 8
    }

    /// Whether `scope` was entered on this stack and has not been exited, neither
    /// itself nor a scope around it.
    pub closed spec fn scope_valid(&self, scope: &StackRootScope) -> bool {
        let d = self.scope_depth(scope);
        &&& exists|d: int|
            0 <= d < self.blocks.len() && (#[trigger] self.blocks@[d]).end_ptr == scope.end_ptr
        &&& self.blocks@[d].start_ptr <= scope.next_ptr <= scope.end_ptr
        &&& (scope.next_ptr - self.blocks@[d].start_ptr) % 8 == 0
        &&& self.scope_position(scope) <= self.count()
    }

    /// Whether `outer` was entered before `inner`, so that exiting `inner` leaves
    /// `outer` as it is: the block of `outer` lies deeper in the chain, or both
    /// have the same block and `outer` stood no higher in it.
    pub open spec fn scope_encloses(&self, outer: &StackRootScope, inner: &StackRootScope) -> bool {
        ||| self.scope_depth(outer) < self.scope_depth(inner)
        ||| self.scope_depth(outer) == self.scope_depth(inner) && outer.next() <= inner.next()
    }

    /// The position of the live cell at `address`, if there is one.
    pub open spec fn index_of(&self, address: usize) -> Option<int> {
        if exists|i: int| 0 <= i < self@.len() && (#[trigger] self@[i]).address == address {
            Some(choose|i: int| 0 <= i < self@.len() && (#[trigger] self@[i]).address == address)
        } else {
            None
        }
    }

    /// What the live cell at `address` holds, if there is one.
    pub open spec fn contents_at(&self, address: usize) -> Option<StackRootContents> {
        match self.index_of(address) {
            Some(i) => Some(self@[i].contents),
            None => None,
        }
    }

    /// The live cells have pairwise different addresses.
    #[verifier::rlimit(40)]
    pub proof fn lemma_addresses_differ(&self, i: int, j: int)
        requires
            self.wf(),
            0 <= i < self@.len(),
            0 <= j < self@.len(),
            i != j,
        ensures
            self@[i].address != self@[j].address,
    {
        let bi = i / (HANDLE_BLOCK_SIZE as int);
        let bj = j / (HANDLE_BLOCK_SIZE as int);
        self.lemma_cell_address(i);
        self.lemma_cell_address(j);
        if bi != bj {
            self.lemma_other_block(i, bj, self@[j].address);
        }
    }

    /// Makes a block the current one: the free block that was freed last if there
    /// is one, else a new block.
    #[verifier::rlimit(40)]
    fn push_block(&mut self)
        requires
            old(self).wf(),
            old(self).next_ptr == old(self).end_ptr,
            old(self).has_room(),
        ensures
            final(self).wf(),
            final(self)@ == old(self)@,
            final(self).next_ptr != final(self).end_ptr,
            final(self).max_handles == old(self).max_handles,
            final(self).blocks@.len() == old(self).blocks@.len() + 1,
            old(self).keeps_scopes(final(self)),
            final(self).room() == old(self).room(),
            forall|i: int|
                0 <= i < old(self).blocks@.len() ==> final(self).blocks@[i] == old(self).blocks@[i],
            old(self).free_blocks.len() > 0 ==> final(self).free_list() == old(self).free_list().drop_last() && final(self).block_list() == old(self).block_list().push(old(self).free_list().last()),
            old(self).free_blocks.len() == 0 ==> final(self).free_list() == old(self).free_list(),
    {
        let ghost before = *self;
        proof {
            before.lemma_room();
        }
        match self.free_blocks.pop() {
            Some(free_block) => {
                self.blocks.push(free_block);
            },
            None => {
                let start_ptr: usize = HANDLE_REGION_BASE + self.blocks_created
                    * HANDLE_BLOCK_BYTES;
                let new_block = StackRootBlock::new(start_ptr);
                self.blocks.push(new_block);
                self.blocks_created += 1;
            },
        }
        let last = self.blocks.len() - 1;
        self.next_ptr = self.blocks[last].start_ptr;
        self.end_ptr = self.blocks[last].end_ptr;
        proof {
            assert(self.blocks@[last as int].wf());
            assert(before.blocks@[last - 1].wf());
            assert(before.used() == HANDLE_BLOCK_SIZE);
            assert(self.used() == 0);
            assert forall|i: int| 0 <= i < before.count() implies self.cell(i) == before.cell(
                i,
            ) by {
                assert(self.blocks@[i / (HANDLE_BLOCK_SIZE as int)] == before.blocks@[i / (
                HANDLE_BLOCK_SIZE as int)]);
            }
            assert(self@ =~= before@);
            before.lemma_keeps_scopes(self);
            if before.free_blocks.len() > 0 {
                assert(self.free_list() =~= before.free_list().drop_last());
                assert(self.block_list() =~= before.block_list().push(
                    before.free_list().last(),
                ));
            } else {
                assert(self.free_list() =~= before.free_list());
            }
        }
    }

    /// Takes the current block off the chain in use and puts it on the free
    /// chain. Returns the end address of the block that is current now.
    fn pop_block(&mut self) -> (new_end_ptr: usize)
        requires
            old(self).chain_wf(),
            old(self).blocks.len() >= 2,
        ensures
            final(self).chain_wf(),
            final(self).blocks@ == old(self).blocks@.drop_last(),
            final(self).free_blocks@ == old(self).free_blocks@.push(old(self).blocks@.last()),
            new_end_ptr == final(self).blocks@.last().end_ptr,
            final(self).next_ptr == old(self).next_ptr,
            final(self).end_ptr == old(self).end_ptr,
            final(self).max_handles == old(self).max_handles,
    {
        let old_current_block = self.blocks.pop().unwrap();
        self.free_blocks.push(old_current_block);
        let last = self.blocks.len() - 1;
        self.blocks[last].end_ptr
    }

    /// The number of cells in use.
    pub fn handle_count(&self) -> (count: usize)
        requires
            self.wf(),
        ensures
            count == self@.len(),
    {
        let last = self.blocks.len() - 1;
        proof {
            assert(self.blocks@[last as int].wf());
        }
        (self.blocks.len() - 1) * HANDLE_BLOCK_SIZE + (self.next_ptr
            - self.blocks[last].start_ptr) / 8
    }

    /// The number of cells that can still be handed out.
    pub fn cells_left(&self) -> (count: usize)
        requires
            self.wf(),
        ensures
            count == self.room(),
            self.has_room() == (count >= 1),
    {
        let limit: usize = (usize::MAX - HANDLE_REGION_BASE) / HANDLE_BLOCK_BYTES;
        proof {
            self.lemma_room();
        }
        (self.end_ptr - self.next_ptr) / 8 + HANDLE_BLOCK_SIZE * (self.free_blocks.len() + (limit
            - self.blocks_created))
    }

    /// The number of blocks on the free chain.
    pub fn free_handle_block_count(&self) -> (count: usize)
        requires
            self.wf(),
        ensures
            count == self.free_list().len(),
    {
        self.free_blocks.len()
    }

    /// The number of cells in use now, and the largest number in use at once so far.
    pub fn handle_stats(&self) -> (stats: StackRootStats)
        requires
            self.wf(),
        ensures
            stats.num_handles == self@.len(),
            stats.max_handles == self.peak(),
            stats.num_handles <= stats.max_handles,
    {
        StackRootStats { num_handles: self.handle_count(), max_handles: self.max_handles }
    }
}

/// The types whose values can be put into a root cell.
pub trait ToStackRootContents {
    /// The type of the values.
    type Impl;

    /// The word that stands for `value` in a cell.
    spec fn contents_of(value: Self::Impl) -> StackRootContents;

    /// The word that stands for `value` in a cell.
    fn to_handle_contents(value: Self::Impl) -> (contents: StackRootContents)
        ensures
            contents == Self::contents_of(value),
    ;
}

impl ToStackRootContents for Value {
    type Impl = Value;

    open spec fn contents_of(value: Value) -> StackRootContents {
        value@
    }

    #[inline]
    fn to_handle_contents(value: Value) -> (contents: StackRootContents) {
        value.as_raw_bits()
    }
}

impl ToStackRootContents for HeapItemDescriptor {
    type Impl = HeapPtr<HeapItemDescriptor>;

    open spec fn contents_of(value: HeapPtr<HeapItemDescriptor>) -> StackRootContents {
        value@
    }

    #[inline]
    fn to_handle_contents(value: HeapPtr<HeapItemDescriptor>) -> (contents: StackRootContents) {
        value.as_ptr()
    }
}

impl ToStackRootContents for AnyHeapItem {
    type Impl = HeapPtr<AnyHeapItem>;

    open spec fn contents_of(value: HeapPtr<AnyHeapItem>) -> StackRootContents {
        value@
    }

    #[inline]
    fn to_handle_contents(value: HeapPtr<AnyHeapItem>) -> (contents: StackRootContents) {
        value.as_ptr()
    }
}

/// A rooted reference: the address of a cell on the stack of root cells. The
/// cell holds a tagged value or the address of a heap item of type `T`.
pub struct StackRoot<T> {
    ptr: usize,
    phantom_data: PhantomData<T>,
}

impl<T> View for StackRoot<T> {
    type V = usize;

    /// The address of the cell.
    closed spec fn view(&self) -> usize {
        self.ptr
    }
}

impl<T> Clone for StackRoot<T> {
    #[inline]
    fn clone(&self) -> (root: Self)
        ensures
            root@ == self@,
    {
        StackRoot { ptr: self.ptr, phantom_data: PhantomData }
    }
}

impl<T> Copy for StackRoot<T> {

}

impl StackRootContext {
    /// Whether `after` still holds the cells of `self` below `position` as they
    /// were: at the same addresses and with the same contents.
    pub open spec fn keeps_cells(&self, after: &StackRootContext, position: int) -> bool {
        &&& position <= self@.len()
        &&& position <= after@.len()
        &&& forall|i: int| 0 <= i < position ==> #[trigger] after@[i] == self@[i]
    }

    /// Whether `after` still knows the scopes that are valid in `self` and lie
    /// around `inner` or are `inner` itself, each with its position.
    pub open spec fn keeps_scopes_around(
        &self,
        after: &StackRootContext,
        inner: &StackRootScope,
    ) -> bool {
        forall|scope: StackRootScope|
            #![trigger self.scope_valid(&scope)]
            #![trigger after.scope_valid(&scope)]
            self.scope_valid(&scope) && self.scope_encloses(&scope, inner) ==> after.scope_valid(
                &scope,
            ) && after.scope_position(&scope) == self.scope_position(&scope)
                && after.scope_depth(&scope) == self.scope_depth(&scope)
    }

    /// Whether `after` still knows every scope that is valid in `self`, each with
    /// its position.
    pub open spec fn keeps_scopes(&self, after: &StackRootContext) -> bool {
        forall|scope: StackRootScope|
            #![trigger self.scope_valid(&scope)]
            #![trigger after.scope_valid(&scope)]
            self.scope_valid(&scope) ==> after.scope_valid(&scope) && after.scope_position(
                &scope,
            ) == self.scope_position(&scope) && after.scope_depth(&scope) == self.scope_depth(
                &scope,
            )
    }

    /// Among the blocks in use only one ends at a given address.
    proof fn lemma_depth_unique(&self, d1: int, d2: int)
        requires
            self.chain_wf(),
            0 <= d1 < self.blocks.len(),
            0 <= d2 < self.blocks.len(),
            self.blocks@[d1].end_ptr == self.blocks@[d2].end_ptr,
        ensures
            d1 == d2,
    {
        assert(self.blocks@[d1].wf());
        assert(self.blocks@[d2].wf());
        if d1 != d2 {
            assert(self.blocks@[d1].start_ptr != self.blocks@[d2].start_ptr);
        }
    }

    /// A scope keeps its depth and position as long as the blocks up to its own stay in place.
    proof fn lemma_scope_kept(&self, after: &StackRootContext, scope: &StackRootScope)
        requires
            self.chain_wf(),
            after.chain_wf(),
            self.scope_valid(scope),
            self.scope_depth(scope) < after.blocks.len(),
            forall|i: int|
                0 <= i <= self.scope_depth(scope) ==> (#[trigger] after.blocks@[i]).start_ptr
                    == self.blocks@[i].start_ptr && after.blocks@[i].end_ptr
                    == self.blocks@[i].end_ptr,
        ensures
            after.scope_depth(scope) == self.scope_depth(scope),
            after.scope_position(scope) == self.scope_position(scope),
    {
        let d = self.scope_depth(scope);
        assert(after.blocks@[d].end_ptr == scope.end_ptr);
        after.lemma_depth_unique(d, after.scope_depth(scope));
    }

    /// Where the live cell at position `i` lies: in its block, at its offset.
    proof fn lemma_cell_address(&self, i: int)
        requires
            self.wf(),
            0 <= i < self@.len(),
        ensures
            0 <= i / (HANDLE_BLOCK_SIZE as int) < self.blocks.len(),
            self@[i].address == self.blocks@[i / (HANDLE_BLOCK_SIZE as int)].start_ptr + 8 * (i % (
            HANDLE_BLOCK_SIZE as int)),
            self@[i].contents == self.blocks@[i / (HANDLE_BLOCK_SIZE as int)].ptrs@[i % (
            HANDLE_BLOCK_SIZE as int)],
            self.blocks@[i / (HANDLE_BLOCK_SIZE as int)].start_ptr <= self@[i].address
                < self.blocks@[i / (HANDLE_BLOCK_SIZE as int)].end_ptr,
    {
        assert(self.blocks@[i / (HANDLE_BLOCK_SIZE as int)].wf());
    }

    /// No live cell of another block lies within the block at position `b`.
    #[verifier::rlimit(40)]
    proof fn lemma_other_block(&self, i: int, b: int, address: usize)
        requires
            self.wf(),
            0 <= i < self@.len(),
            0 <= b < self.blocks.len(),
            i / (HANDLE_BLOCK_SIZE as int) != b,
            self.blocks@[b].start_ptr <= address < self.blocks@[b].end_ptr,
        ensures
            self@[i].address != address,
    {
        let bi = i / (HANDLE_BLOCK_SIZE as int);
        self.lemma_cell_address(i);
        assert(self.blocks@[bi].wf());
        assert(self.blocks@[b].wf());
        assert(self.blocks@[bi].start_ptr != self.blocks@[b].start_ptr);
        let first = (self.blocks@[bi].start_ptr - HANDLE_REGION_BASE) / (HANDLE_BLOCK_BYTES as int);
        let second = (self.blocks@[b].start_ptr - HANDLE_REGION_BASE) / (HANDLE_BLOCK_BYTES as int);
        assert(self.blocks@[bi].start_ptr == HANDLE_REGION_BASE + first * HANDLE_BLOCK_BYTES);
        assert(self.blocks@[b].start_ptr == HANDLE_REGION_BASE + second * HANDLE_BLOCK_BYTES);
        assert(first != second);
    }

    /// A cell of the block at position `b` lies at `address` only if it is the
    /// cell at the offset of `address`.
    proof fn lemma_same_block(&self, i: int, b: int, address: usize)
        requires
            self.wf(),
            0 <= i < self@.len(),
            0 <= b < self.blocks.len(),
            i / (HANDLE_BLOCK_SIZE as int) == b,
            self.blocks@[b].start_ptr <= address < self.blocks@[b].end_ptr,
            self@[i].address == address,
        ensures
            (address - self.blocks@[b].start_ptr) % 8 == 0,
            i == b * HANDLE_BLOCK_SIZE + (address - self.blocks@[b].start_ptr) / 8,
    {
        self.lemma_cell_address(i);
    }

    /// Looks for the live cell at `address` and returns the position of its block
    /// in the chain and its position in the block.
    #[verifier::rlimit(40)]
    fn find_cell(&self, address: usize) -> (found: Option<(usize, usize)>)
        requires
            self.wf(),
        ensures
            match found {
                Some((b, c)) => {
                    &&& b < self.blocks.len()
                    &&& c < HANDLE_BLOCK_SIZE
                    &&& self.index_of(address) == Some(b * HANDLE_BLOCK_SIZE + c)
                    &&& b * HANDLE_BLOCK_SIZE + c < self@.len()
                },
                None => self.index_of(address).is_none(),
            },
    {
        let mut b: usize = 0;
        while b < self.blocks.len()
            invariant
                self.wf(),
                b <= self.blocks.len(),
                forall|i: int|
                    0 <= i < self@.len() && i / (HANDLE_BLOCK_SIZE as int) < b ==> (
                    #[trigger] self@[i]).address != address,
            decreases self.blocks.len() - b,
        {
            let start_ptr = self.blocks[b].start_ptr;
            let end_ptr = self.blocks[b].end_ptr;
            if start_ptr <= address && address < end_ptr {
                let aligned = (address - start_ptr) % 8 == 0;
                let c: usize = (address - start_ptr) / 8;
                let live = aligned && (b + 1 < self.blocks.len() || address < self.next_ptr);
                let ghost k = b * HANDLE_BLOCK_SIZE + c;
                proof {
                    assert(self.blocks@[b as int].wf());
                    assert forall|i: int| 0 <= i < self@.len() && i != k implies (
                    #[trigger] self@[i]).address != address by {
                        if i / (HANDLE_BLOCK_SIZE as int) != b {
                            self.lemma_other_block(i, b as int, address);
                        } else if self@[i].address == address {
                            self.lemma_same_block(i, b as int, address);
                        }
                    }
                    if live {
                        assert(0 <= k < self@.len());
                        self.lemma_cell_address(k);
                        self.lemma_index_is(k);
                    } else if 0 <= k < self@.len() && self@[k].address == address {
                        self.lemma_same_block(k, b as int, address);
                    }
                }
                if live {
                    return Some((b, c));
                } else {
                    return None;
                }
            }
            proof {
                assert forall|i: int|
                    0 <= i < self@.len() && i / (HANDLE_BLOCK_SIZE as int) < b + 1 implies (
                    #[trigger] self@[i]).address != address by {
                    if i / (HANDLE_BLOCK_SIZE as int) == b {
                        self.lemma_cell_address(i);
                    }
                }
            }
            b += 1;
        }
        None
    }

    /// What the live cell at `address` holds, if there is one.
    pub fn read(&self, address: usize) -> (contents: Option<StackRootContents>)
        requires
            self.wf(),
        ensures
            contents == self.contents_at(address),
    {
        match self.find_cell(address) {
            Some((b, c)) => Some(self.blocks[b].ptrs[c]),
            None => None,
        }
    }

    /// Puts `contents` into the live cell at `address`. Without such a cell
    /// nothing happens.
    #[verifier::rlimit(40)]
    pub fn write(&mut self, address: usize, contents: StackRootContents)
        requires
            old(self).wf(),
        ensures
            final(self).wf(),
            final(self)@ == (match old(self).index_of(address) {
                Some(i) => old(self)@.update(i, CellView { address, contents }),
                None => old(self)@,
            }),
            final(self)@ == replace_at(old(self)@, address, contents),
            final(self).free_list() == old(self).free_list(),
            final(self).next() == old(self).next(),
            final(self).end() == old(self).end(),
            final(self).room() == old(self).room(),
            old(self).keeps_scopes(final(self)),
    {
        let ghost before = *self;
        match self.find_cell(address) {
            Some((b, c)) => {
                self.blocks[b].ptrs[c] = contents;
                proof {
                    let k = b * HANDLE_BLOCK_SIZE + c;
                    assert forall|i: int| 0 <= i < self.blocks.len() implies (
                    #[trigger] self.blocks@[i]).start_ptr == before.blocks@[i].start_ptr
                        && self.blocks@[i].end_ptr == before.blocks@[i].end_ptr
                        && self.blocks@[i].wf() by {
                        assert(before.blocks@[i].wf());
                    }
                    assert(self.free_list() =~= before.free_list());
                    assert(self.used() == before.used());
                    assert forall|i: int| 0 <= i < before.count() implies self.cell(i) == (
                    if i == k {
                        CellView { address, contents }
                    } else {
                        before.cell(i)
                    }) by {
                        assert(before@[k].address == address);
                    }
                    assert(self@ =~= before@.update(k, CellView { address, contents }));
                    assert forall|i: int| 0 <= i < before@.len() && i != k implies (
                    #[trigger] before@[i]).address != address by {
                        before.lemma_addresses_differ(i, k);
                    }
                    assert(self@ =~= replace_at(before@, address, contents));
                    assert(self.chain_wf());
                    before.lemma_keeps_scopes(self);
                }
            },
            None => {
                proof {
                    assert(self@ =~= replace_at(before@, address, contents));
                }
            },
        }
    }
}

impl<T> StackRoot<T> {
    /// Whether the root holds the dangling address instead of the address of a cell.
    pub open spec fn is_dangling_spec(&self) -> bool {
        self@ == DANGLING_ADDRESS
    }

    /// Makes a new cell on top of the stack, puts `contents` into it and returns
    /// its address.
    ///
    /// The cells that were live stay where they are, with what they hold, and so
    /// do the scopes. A full current block is followed by the free block that
    /// was freed last or, if there is none, by a new block.
    #[inline]
    pub fn new(handle_context: &mut StackRootContext, contents: StackRootContents) -> (root:
        StackRoot<T>)
        requires
            old(handle_context).wf(),
            old(handle_context).has_room(),
        ensures
            final(handle_context).wf(),
            final(handle_context)@ == old(handle_context)@.push(
                CellView { address: root@, contents },
            ),
            final(handle_context).contents_at(root@) == Some(contents),
            old(handle_context).index_of(root@).is_none(),
            old(handle_context).keeps_scopes(final(handle_context)),
            final(handle_context).room() == old(handle_context).room() - 1,
            final(handle_context).next() == root@ + 8,
            root@ >= HANDLE_REGION_BASE,
            final(handle_context).free_list() == (if old(handle_context).next() == old(handle_context).end() && old(handle_context).free_list().len() > 0 {
                old(handle_context).free_list().drop_last()
            } else {
                old(handle_context).free_list()
            }),
            final(handle_context).peak() == (if final(handle_context)@.len() > old(handle_context).peak() {
                final(handle_context)@.len() as int
            } else {
                old(handle_context).peak()
            }),
    {
        if handle_context.next_ptr == handle_context.end_ptr {
            handle_context.push_block();
        }
        let handle = handle_context.store_next(contents);
        StackRoot { ptr: handle, phantom_data: PhantomData }
    }

    /// A root that holds the dangling address instead of the address of a cell.
    #[inline]
    pub fn dangling() -> (root: StackRoot<T>)
        ensures
            root.is_dangling_spec(),
    {
        StackRoot { ptr: DANGLING_ADDRESS, phantom_data: PhantomData }
    }

    /// Whether the root holds the dangling address instead of the address of a cell.
    #[inline]
    pub fn is_dangling(&self) -> (dangling: bool)
        ensures
            dangling == self.is_dangling_spec(),
    {
        self.ptr == DANGLING_ADDRESS
    }

    /// The address of the cell.
    #[inline]
    pub fn as_ptr(&self) -> (ptr: usize)
        ensures
            ptr == self@,
    {
        self.ptr
    }

    /// What the cell holds, if it is live.
    #[inline]
    pub fn get(&self, handle_context: &StackRootContext) -> (contents: Option<StackRootContents>)
        requires
            handle_context.wf(),
        ensures
            contents == handle_context.contents_at(self@),
    {
        handle_context.read(self.ptr)
    }

    /// Puts `new_contents` into the cell, which every copy of this root then
    /// sees. Nothing happens if the cell is not live.
    #[inline]
    pub fn replace(&mut self, handle_context: &mut StackRootContext, new_contents: StackRootContents)
        requires
            old(handle_context).wf(),
        ensures
            final(self)@ == old(self)@,
            final(handle_context).wf(),
            final(handle_context)@ == replace_at(old(handle_context)@, old(self)@, new_contents),
            old(handle_context).keeps_scopes(final(handle_context)),
    {
        handle_context.write(self.ptr, new_contents);
    }

    /// Puts `new_contents` into the cell and retypes the root.
    pub fn replace_into<U>(
        self,
        handle_context: &mut StackRootContext,
        new_contents: StackRootContents,
    ) -> (root: StackRoot<U>)
        requires
            old(handle_context).wf(),
        ensures
            root@ == self@,
            final(handle_context).wf(),
            final(handle_context)@ == replace_at(old(handle_context)@, self@, new_contents),
            old(handle_context).keeps_scopes(final(handle_context)),
    {
        let mut handle = self.cast::<U>();
        handle.replace(handle_context, new_contents);
        handle
    }

    /// The same cell as a root of another type.
    #[inline]
    pub fn cast<U>(&self) -> (root: StackRoot<U>)
        ensures
            root@ == self@,
    {
        StackRoot { ptr: self.ptr, phantom_data: PhantomData }
    }
}

impl StackRootContext {
    /// Whether `after` has the blocks of `self` where they were, and maybe more
    /// behind them.
    spec fn same_block_bounds(&self, after: &StackRootContext) -> bool {
        &&& after.blocks.len() >= self.blocks.len()
        &&& forall|i: int|
            0 <= i < self.blocks.len() ==> (#[trigger] after.blocks@[i]).start_ptr
                == self.blocks@[i].start_ptr && after.blocks@[i].end_ptr
                == self.blocks@[i].end_ptr
    }

    /// A stack that keeps its blocks in place and loses no cell keeps its scopes.
    proof fn lemma_keeps_scopes(&self, after: &StackRootContext)
        requires
            self.chain_wf(),
            after.chain_wf(),
            self.same_block_bounds(after),
            self.count() <= after.count(),
        ensures
            self.keeps_scopes(after),
    {
        assert forall|scope: StackRootScope| self.scope_valid(&scope) implies (
        #[trigger] after.scope_valid(&scope)) && after.scope_position(&scope)
            == self.scope_position(&scope) && after.scope_depth(&scope) == self.scope_depth(
            &scope,
        ) by {
            self.lemma_scope_kept(after, &scope);
        }
    }

    /// Puts `contents` into the next cell of the current block, which has room,
    /// and returns the address of the cell.
    #[verifier::rlimit(40)]
    fn store_next(&mut self, contents: StackRootContents) -> (address: usize)
        requires
            old(self).wf(),
            old(self).next_ptr != old(self).end_ptr,
        ensures
            final(self).wf(),
            address == old(self).next_ptr,
            final(self).next_ptr == address + 8,
            final(self).end_ptr == old(self).end_ptr,
            final(self).room() == old(self).room() - 1,
            address >= HANDLE_REGION_BASE,
            final(self)@ == old(self)@.push(CellView { address, contents }),
            final(self).contents_at(address) == Some(contents),
            old(self).index_of(address).is_none(),
            old(self).keeps_scopes(final(self)),
            final(self).free_list() == old(self).free_list(),
            final(self).peak() == (if final(self)@.len() > old(self).peak() {
                final(self)@.len() as int
            } else {
                old(self).peak()
            }),
    {
        let ghost before = *self;
        let last = self.blocks.len() - 1;
        proof {
            assert(self.blocks@[last as int].wf());
        }
        let address = self.next_ptr;
        let index: usize = (address - self.blocks[last].start_ptr) / 8;
        self.blocks[last].ptrs[index] = contents;
        self.next_ptr = address + 8;
        proof {
            assert forall|i: int| 0 <= i < self.blocks.len() implies (
            #[trigger] self.blocks@[i]).start_ptr == before.blocks@[i].start_ptr
                && self.blocks@[i].end_ptr == before.blocks@[i].end_ptr && self.blocks@[i].wf() by {
                assert(before.blocks@[i].wf());
            }
            assert(self.chain_wf());
        }
        let count = self.handle_count_unchecked();
        if count > self.max_handles {
            self.max_handles = count;
        }
        proof {
            let after = *self;
            let k = before.count();
            assert(after.free_list() =~= before.free_list());
            assert(after.used() == before.used() + 1);
            assert forall|i: int| 0 <= i < after.count() implies after.cell(i) == (if i == k {
                CellView { address, contents }
            } else {
                before.cell(i)
            }) by {}
            assert(after@ =~= before@.push(CellView { address, contents }));
            after.lemma_index_is(k);
            assert(before.index_of(address).is_none()) by {
                if before.index_of(address).is_some() {
                    let j = before.index_of(address).unwrap();
                    assert(after@[j] == before@[j]);
                    after.lemma_addresses_differ(j, k);
                }
            }
            before.lemma_keeps_scopes(&after);
        }
        address
    }

    /// The live cell at position `k` is the one that is found at its address.
    pub proof fn lemma_index_is(&self, k: int)
        requires
            self.wf(),
            0 <= k < self@.len(),
        ensures
            self.index_of(self@[k].address) == Some(k),
            self.contents_at(self@[k].address) == Some(self@[k].contents),
    {
        let address = self@[k].address;
        let j = choose|j: int| 0 <= j < self@.len() && (#[trigger] self@[j]).address == address;
        if j != k {
            self.lemma_addresses_differ(j, k);
        }
    }

    /// A cell that a later state of the stack still holds is found there at the
    /// same address, with the same contents.
    pub proof fn lemma_kept_cell_is_found(
        &self,
        after: &StackRootContext,
        position: int,
        address: usize,
    )
        requires
            self.wf(),
            after.wf(),
            self.keeps_cells(after, position),
            self.index_of(address).is_some(),
            self.index_of(address).unwrap() < position,
        ensures
            after.index_of(address) == self.index_of(address),
            after.contents_at(address) == self.contents_at(address),
    {
        let i = self.index_of(address).unwrap();
        assert(after@[i] == self@[i]);
        after.lemma_index_is(i);
    }

    /// The number of cells in use, for a stack whose peak is being brought up to date.
    fn handle_count_unchecked(&self) -> (count: usize)
        requires
            self.chain_wf(),
            self.end_ptr == self.blocks@.last().end_ptr,
            self.blocks@.last().start_ptr <= self.next_ptr <= self.end_ptr,
        ensures
            count == self.count(),
    {
        let last = self.blocks.len() - 1;
        proof {
            assert(self.blocks@[last as int].wf());
        }
        (self.blocks.len() - 1) * HANDLE_BLOCK_SIZE + (self.next_ptr
            - self.blocks[last].start_ptr) / 8
    }
}

impl StackRootContext {
    /// Remembers where the stack stands.
    pub fn enter_scope(&self) -> (scope: StackRootScope)
        requires
            self.wf(),
        ensures
            scope.next() == self.next(),
            scope.end() == self.end(),
            self.scope_valid(&scope),
            self.scope_position(&scope) == self@.len(),
            forall|outer: StackRootScope| #[trigger]
                self.scope_valid(&outer) ==> self.scope_encloses(&outer, &scope),
    {
        let scope = StackRootScope { next_ptr: self.next_ptr, end_ptr: self.end_ptr };
        proof {
            let last = self.blocks.len() - 1;
            assert(self.blocks@[last].end_ptr == scope.end_ptr);
            self.lemma_depth_unique(last, self.scope_depth(&scope));
            assert(self.blocks@[last].wf());
            assert forall|outer: StackRootScope| #[trigger]
                self.scope_valid(&outer) implies self.scope_encloses(&outer, &scope) by {
                let d = self.scope_depth(&outer);
                assert(self.blocks@[d].wf());
            }
        }
        scope
    }

    /// Puts the stack back where it stood when `scope` was entered. The blocks
    /// behind the block of the scope go to the free chain, the current one first.
    #[verifier::rlimit(40)]
    pub fn exit_scope(&mut self, scope: &StackRootScope)
        requires
            old(self).wf(),
            old(self).scope_valid(scope),
        ensures
            final(self).wf(),
            final(self)@ == old(self)@.take(old(self).scope_position(scope)),
            final(self).next() == scope.next(),
            final(self).end() == scope.end(),
            final(self).block_list() == old(self).block_list().take(
                old(self).scope_depth(scope) + 1,
            ),
            final(self).free_list() == old(self).free_list() + popped(
                old(self).block_list(),
                old(self).scope_depth(scope) + 1,
            ),
            old(self).keeps_scopes_around(final(self), scope),
            final(self).peak() == old(self).peak(),
            final(self).room() == old(self).room() + (old(self)@.len() - final(self)@.len()),
    {
        let ghost before = *self;
        let ghost d = before.scope_depth(scope);
        proof {
            before.lemma_depth_unique(d, d);
        }
        if scope.end_ptr != self.end_ptr {
            loop
                invariant_except_break
                    self.blocks.len() > d + 1,
                invariant
                    before.wf(),
                    before.scope_valid(scope),
                    d == before.scope_depth(scope),
                    0 <= d < before.blocks.len(),
                    before.blocks@[d].end_ptr == scope.end_ptr,
                    self.chain_wf(),
                    self.blocks.len() >= d + 1,
                    self.blocks.len() <= before.blocks.len(),
                    self.blocks@ == before.blocks@.take(self.blocks.len() as int),
                    self.free_blocks@ == before.free_blocks@ + Seq::new(
                        (before.blocks.len() - self.blocks.len()) as nat,
                        |i: int| before.blocks@[before.blocks.len() - 1 - i],
                    ),
                    self.max_handles == before.max_handles,
                ensures
                    self.blocks.len() == d + 1,
                decreases self.blocks.len(),
            {
                let ghost previous = *self;
                let new_end_ptr = self.pop_block();
                proof {
                    assert(self.blocks@ =~= before.blocks@.take(self.blocks.len() as int));
                    assert(self.free_blocks@ =~= before.free_blocks@ + Seq::new(
                        (before.blocks.len() - self.blocks.len()) as nat,
                        |i: int| before.blocks@[before.blocks.len() - 1 - i],
                    ));
                    if new_end_ptr == scope.end_ptr {
                        before.lemma_depth_unique(d, self.blocks.len() - 1);
                    }
                }
                if new_end_ptr == scope.end_ptr {
                    break ;
                }
            }
        } else {
            proof {
                before.lemma_depth_unique(d, before.blocks.len() - 1);
                assert(self.blocks@ =~= before.blocks@.take(self.blocks.len() as int));
                assert(self.free_blocks@ =~= before.free_blocks@ + Seq::new(
                    (before.blocks.len() - self.blocks.len()) as nat,
                    |i: int| before.blocks@[before.blocks.len() - 1 - i],
                ));
            }
        }
        self.next_ptr = scope.next_ptr;
        self.end_ptr = scope.end_ptr;
        proof {
            let after = *self;
            assert(after.blocks@[d] == before.blocks@[d]);
            assert(before.blocks@[d].wf());
            assert(after.count() == before.scope_position(scope));
            assert forall|i: int| 0 <= i < after.count() implies after.cell(i) == before.cell(
                i,
            ) by {
                assert(after.blocks@[i / (HANDLE_BLOCK_SIZE as int)] == before.blocks@[i / (
                HANDLE_BLOCK_SIZE as int)]);
            }
            assert(after@ =~= before@.take(before.scope_position(scope)));
            assert(after.block_list() =~= before.block_list().take(d + 1));
            assert(after.free_list() =~= before.free_list() + popped(
                before.block_list(),
                d + 1,
            ));
            assert forall|outer: StackRootScope|
                before.scope_valid(&outer) && before.scope_encloses(
                    &outer,
                    scope,
                ) implies #[trigger] after.scope_valid(&outer) && after.scope_position(&outer)
                == before.scope_position(&outer) && after.scope_depth(&outer)
                == before.scope_depth(&outer) by {
                let e = before.scope_depth(&outer);
                assert(before.blocks@[e].wf());
                assert forall|i: int| 0 <= i <= e implies (#[trigger] after.blocks@[i]).start_ptr
                    == before.blocks@[i].start_ptr && after.blocks@[i].end_ptr
                    == before.blocks@[i].end_ptr by {
                    assert(after.blocks@[i] == before.blocks@[i]);
                }
                before.lemma_scope_kept(&after, &outer);
            }
        }
    }
}

impl StackRootScope {
    /// Enters a scope: remembers where the stack of cells of `cx` stands.
    #[inline]
    pub fn enter(cx: &Context) -> (scope: StackRootScope)
        requires
            cx.handle_context.wf(),
        ensures
            scope.next() == cx.handle_context.next(),
            scope.end() == cx.handle_context.end(),
            cx.handle_context.scope_valid(&scope),
            cx.handle_context.scope_position(&scope) == cx.handle_context@.len(),
            forall|outer: StackRootScope| #[trigger]
                cx.handle_context.scope_valid(&outer) ==> cx.handle_context.scope_encloses(
                    &outer,
                    &scope,
                ),
    {
        cx.handle_context.enter_scope()
    }

    /// Exits the scope: the cells made since it was entered are given up, and the
    /// stack of cells stands where it stood then.
    #[inline]
    pub fn exit(self, cx: &mut Context)
        requires
            old(cx).handle_context.wf(),
            old(cx).handle_context.scope_valid(&self),
        ensures
            final(cx).handle_context.wf(),
            final(cx).same_but_handles(old(cx)),
            final(cx).handle_context@ == old(cx).handle_context@.take(
                old(cx).handle_context.scope_position(&self),
            ),
            final(cx).handle_context.next() == self.next(),
            final(cx).handle_context.end() == self.end(),
            final(cx).handle_context.block_list() == old(cx).handle_context.block_list().take(
                old(cx).handle_context.scope_depth(&self) + 1,
            ),
            final(cx).handle_context.free_list() == old(cx).handle_context.free_list() + popped(
                old(cx).handle_context.block_list(),
                old(cx).handle_context.scope_depth(&self) + 1,
            ),
            old(cx).handle_context.keeps_scopes_around(&final(cx).handle_context, &self),
    {
        self.exit_non_consuming(cx);
    }

    #[inline]
    fn exit_non_consuming(&self, cx: &mut Context)
        requires
            old(cx).handle_context.wf(),
            old(cx).handle_context.scope_valid(self),
        ensures
            final(cx).handle_context.wf(),
            final(cx).same_but_handles(old(cx)),
            final(cx).handle_context@ == old(cx).handle_context@.take(
                old(cx).handle_context.scope_position(self),
            ),
            final(cx).handle_context.next() == self.next(),
            final(cx).handle_context.end() == self.end(),
            final(cx).handle_context.block_list() == old(cx).handle_context.block_list().take(
                old(cx).handle_context.scope_depth(self) + 1,
            ),
            final(cx).handle_context.free_list() == old(cx).handle_context.free_list() + popped(
                old(cx).handle_context.block_list(),
                old(cx).handle_context.scope_depth(self) + 1,
            ),
            old(cx).handle_context.keeps_scopes_around(&final(cx).handle_context, self),
    {
        cx.handle_context.exit_scope(self);
    }
}

/// A scope that is entered when the guard is made and exited when the guard
/// is released. No value escapes from it.
pub struct StackRootScopeGuard {
    stack_scope: StackRootScope,
}

impl StackRootScopeGuard {
    /// The scope that the guard holds.
    pub closed spec fn scope(&self) -> StackRootScope {
        self.stack_scope
    }

    /// Enters a scope and returns its guard.
    #[inline]
    pub fn new(cx: &Context) -> (guard: StackRootScopeGuard)
        requires
            cx.handle_context.wf(),
        ensures
            guard.scope().next() == cx.handle_context.next(),
            guard.scope().end() == cx.handle_context.end(),
            cx.handle_context.scope_valid(&guard.scope()),
            cx.handle_context.scope_position(&guard.scope()) == cx.handle_context@.len(),
            forall|outer: StackRootScope| #[trigger]
                cx.handle_context.scope_valid(&outer) ==> cx.handle_context.scope_encloses(
                    &outer,
                    &guard.scope(),
                ),
    {
        StackRootScopeGuard { stack_scope: StackRootScope::enter(cx) }
    }

    /// Exits the scope of the guard.
    #[inline]
    pub fn release(self, cx: &mut Context)
        requires
            old(cx).handle_context.wf(),
            old(cx).handle_context.scope_valid(&self.scope()),
        ensures
            final(cx).handle_context.wf(),
            final(cx).same_but_handles(old(cx)),
            final(cx).handle_context@ == old(cx).handle_context@.take(
                old(cx).handle_context.scope_position(&self.scope()),
            ),
            final(cx).handle_context.next() == self.scope().next(),
            final(cx).handle_context.end() == self.scope().end(),
            old(cx).handle_context.keeps_scopes_around(&final(cx).handle_context, &self.scope()),
    {
        self.stack_scope.exit_non_consuming(cx);
    }
}

impl StackRootContext {
    /// What the live cells hold, in the order in which the roots are visited: the
    /// cells of the current block first, then those of the block before it, and
    /// so on down to the first block, within each block from its first cell on.
    pub closed spec fn visit_order(&self) -> Seq<StackRootContents> {
        self.blocks@.last().ptrs@.take(self.used()) + earlier_values(
            self.blocks@,
            self.blocks.len() - 1,
        )
    }

    /// The pointers that the live cells hold, in the order in which they are visited.
    pub open spec fn root_pointers(&self) -> Seq<usize> {
        pointers_in(self.visit_order())
    }

    /// What the first `k` blocks hold is what their cells hold.
    proof fn lemma_earlier_values(blocks: Seq<StackRootBlock>, k: int, word: usize)
        requires
            0 <= k <= blocks.len(),
            forall|b: int| 0 <= b < k ==> (#[trigger] blocks[b]).ptrs.len() == HANDLE_BLOCK_SIZE,
        ensures
            earlier_values(blocks, k).contains(word) <==> exists|b: int, j: int|
                0 <= b < k && 0 <= j < HANDLE_BLOCK_SIZE && #[trigger] blocks[b].ptrs@[j] == word,
        decreases k,
    {
        if k > 0 {
            Self::lemma_earlier_values(blocks, k - 1, word);
            let first = blocks[k - 1].ptrs@;
            let rest = earlier_values(blocks, k - 1);
            let all = first + rest;
            if all.contains(word) {
                let i = choose|i: int| 0 <= i < all.len() && all[i] == word;
                if i < first.len() {
                    assert(blocks[k - 1].ptrs@[i] == word);
                } else {
                    assert(rest[i - first.len()] == word);
                    assert(rest.contains(word));
                }
            }
            if exists|b: int, j: int|
                0 <= b < k && 0 <= j < HANDLE_BLOCK_SIZE && #[trigger] blocks[b].ptrs@[j]
                    == word {
                let (b, j) = choose|b: int, j: int|
                    0 <= b < k && 0 <= j < HANDLE_BLOCK_SIZE && #[trigger] blocks[b].ptrs@[j]
                        == word;
                if b == k - 1 {
                    assert(all[j] == word);
                } else {
                    assert(rest.contains(word));
                    let i = choose|i: int| 0 <= i < rest.len() && rest[i] == word;
                    assert(all[first.len() + i] == word);
                }
            }
        }
    }

    /// The roots that are visited are the pointers that the live cells hold:
    /// every live cell that holds a pointer is visited, and nothing else is.
    #[verifier::rlimit(40)]
    pub proof fn lemma_roots_are_the_live_pointers(&self, word: usize)
        requires
            self.wf(),
        ensures
            self.root_pointers().contains(word) <==> is_pointer_bits(word) && exists|i: int|
                0 <= i < self@.len() && (#[trigger] self@[i]).contents == word,
    {
        let last = self.blocks.len() - 1;
        let current = self.blocks@[last].ptrs@.take(self.used());
        let earlier = earlier_values(self.blocks@, last);
        let order = self.visit_order();
        assert(self.blocks@[last].wf());
        assert forall|b: int| 0 <= b < last implies (#[trigger] self.blocks@[b]).ptrs.len()
            == HANDLE_BLOCK_SIZE by {
            assert(self.blocks@[b].wf());
        }
        lemma_pointers_in_contains(order, word);
        Self::lemma_earlier_values(self.blocks@, last, word);
        if order.contains(word) {
            let i = choose|i: int| 0 <= i < order.len() && order[i] == word;
            if i < current.len() {
                let k = last * HANDLE_BLOCK_SIZE + i;
                self.lemma_cell_address(k);
                assert(self@[k].contents == word);
            } else {
                assert(earlier[i - current.len()] == word);
                assert(earlier.contains(word));
                let (b, j) = choose|b: int, j: int|
                    0 <= b < last && 0 <= j < HANDLE_BLOCK_SIZE && #[trigger] self.blocks@[b].ptrs@[j]
                        == word;
                let k = b * HANDLE_BLOCK_SIZE + j;
                self.lemma_cell_address(k);
                assert(self@[k].contents == word);
            }
        }
        if exists|i: int| 0 <= i < self@.len() && (#[trigger] self@[i]).contents == word {
            let k = choose|i: int| 0 <= i < self@.len() && (#[trigger] self@[i]).contents == word;
            self.lemma_cell_address(k);
            let b = k / (HANDLE_BLOCK_SIZE as int);
            let j = k % (HANDLE_BLOCK_SIZE as int);
            if b == last {
                assert(current[j] == word);
                assert(order[j] == word);
            } else {
                assert(self.blocks@[b].ptrs@[j] == word);
                assert(earlier.contains(word));
                let i = choose|i: int| 0 <= i < earlier.len() && earlier[i] == word;
                assert(order[current.len() + i] == word);
            }
        }
    }

    /// Reports the first `count` cells of `block` to `visitor`, each as a tagged value.
    fn visit_roots_between_pointers<V: GcVisitorExt>(
        block: &StackRootBlock,
        count: usize,
        visitor: &mut V,
    )
        requires
            block.wf(),
            count <= HANDLE_BLOCK_SIZE,
            old(visitor).well_formed(),
        ensures
            final(visitor).well_formed(),
            final(visitor).heap_view() == old(visitor).heap_view().mark_all(
                pointers_in(block.ptrs@.take(count as int)),
            ),
            final(visitor).weak_seen() == old(visitor).weak_seen(),
    {
        let ghost start = visitor.heap_view();
        let mut i: usize = 0;
        proof {
            assert(block.ptrs@.take(0) =~= Seq::<usize>::empty());
        }
        while i < count
            invariant
                block.wf(),
                i <= count <= HANDLE_BLOCK_SIZE,
                visitor.well_formed(),
                visitor.heap_view() == start.mark_all(pointers_in(block.ptrs@.take(i as int))),
                visitor.weak_seen() == old(visitor).weak_seen(),
            decreases count - i,
        {
            let value = Value::from_raw_bits(block.ptrs[i]);
            proof {
                let done = block.ptrs@.take(i as int);
                let more = block.ptrs@.take(i + 1);
                assert(more.drop_last() =~= done);
                assert(more.last() == block.ptrs@[i as int]);
                assert(pointers_in(done).push(more.last()).drop_last() =~= pointers_in(done));
            }
            visitor.visit_value(&value);
            i += 1;
        }
    }

    /// Reports every pointer that a live cell holds to `visitor`. The cells
    /// that were given up when their scope was exited are not looked at.
    pub fn visit_roots<V: GcVisitorExt>(&self, visitor: &mut V)
        requires
            self.wf(),
            old(visitor).well_formed(),
        ensures
            final(visitor).well_formed(),
            final(visitor).heap_view() == old(visitor).heap_view().mark_all(self.root_pointers()),
            final(visitor).weak_seen() == old(visitor).weak_seen(),
    {
        let ghost start = visitor.heap_view();
        let last = self.blocks.len() - 1;
        proof {
            assert(self.blocks@[last as int].wf());
        }
        let used: usize = (self.next_ptr - self.blocks[last].start_ptr) / 8;
        Self::visit_roots_between_pointers(&self.blocks[last], used, visitor);
        let ghost current = self.blocks@[last as int].ptrs@.take(used as int);
        let mut k: usize = last;
        proof {
            lemma_pointers_in_concat(current, earlier_values(self.blocks@, k as int));
            lemma_mark_all_concat(
                start,
                pointers_in(current),
                pointers_in(earlier_values(self.blocks@, k as int)),
            );
        }
        while k > 0
            invariant
                self.wf(),
                k <= last,
                last == self.blocks.len() - 1,
                visitor.well_formed(),
                visitor.heap_view().mark_all(pointers_in(earlier_values(self.blocks@, k as int)))
                    == start.mark_all(self.root_pointers()),
                visitor.weak_seen() == old(visitor).weak_seen(),
            decreases k,
        {
            let ghost before = visitor.heap_view();
            k -= 1;
            proof {
                assert(self.blocks@[k as int].wf());
                let block_values = self.blocks@[k as int].ptrs@;
                assert(block_values.take(HANDLE_BLOCK_SIZE as int) =~= block_values);
                lemma_pointers_in_concat(block_values, earlier_values(self.blocks@, k as int));
                lemma_mark_all_concat(
                    before,
                    pointers_in(block_values),
                    pointers_in(earlier_values(self.blocks@, k as int)),
                );
            }
            Self::visit_roots_between_pointers(&self.blocks[k], HANDLE_BLOCK_SIZE, visitor);
        }
    }
}

impl<T> StackRoot<T> {
    /// A new cell that holds the empty value.
    #[inline]
    pub fn empty(cx: &mut Context) -> (root: StackRoot<T>)
        requires
            old(cx).handle_context.wf(),
            old(cx).handle_context.has_room(),
        ensures
            final(cx).handle_context.wf(),
            final(cx).handle_context@ == old(cx).handle_context@.push(
                CellView { address: root@, contents: EMPTY_BITS },
            ),
            final(cx).handle_context.contents_at(root@) == Some(EMPTY_BITS),
            old(cx).handle_context.keeps_scopes(&final(cx).handle_context),
            final(cx).handle_context.room() == old(cx).handle_context.room() - 1,
            final(cx).same_but_handles(old(cx)),
    {
        StackRoot::new(&mut cx.handle_context, Value::empty().as_raw_bits())
    }
}

impl StackRoot<Value> {
    /// The same cell as a root of an object.
    #[inline]
    pub fn as_object(&self) -> (root: StackRoot<ObjectValue>)
        ensures
            root@ == self@,
    {
        self.cast()
    }

    /// The same cell as a root of a string.
    #[inline]
    pub fn as_string(&self) -> (root: StackRoot<StringValue>)
        ensures
            root@ == self@,
    {
        self.cast()
    }

    /// The same cell as a root of a symbol.
    #[inline]
    pub fn as_symbol(&self) -> (root: StackRoot<SymbolValue>)
        ensures
            root@ == self@,
    {
        self.cast()
    }

    /// The same cell as a root of a big integer.
    #[inline]
    pub fn as_bigint(&self) -> (root: StackRoot<BigIntValue>)
        ensures
            root@ == self@,
    {
        self.cast()
    }
}

impl Value {
    /// Roots the value, a pointer or an immediate, in a new cell of `cx`.
    #[inline]
    pub fn to_stack(self, cx: &mut Context) -> (root: StackRoot<Value>)
        requires
            old(cx).handle_context.wf(),
            old(cx).handle_context.has_room(),
        ensures
            final(cx).handle_context.wf(),
            final(cx).handle_context@ == old(cx).handle_context@.push(
                CellView { address: root@, contents: self@ },
            ),
            final(cx).handle_context.contents_at(root@) == Some(self@),
            old(cx).handle_context.keeps_scopes(&final(cx).handle_context),
            final(cx).handle_context.room() == old(cx).handle_context.room() - 1,
            final(cx).same_but_handles(old(cx)),
    {
        StackRoot::new(&mut cx.handle_context, self.as_raw_bits())
    }
}

impl<T> HeapPtr<T> {
    /// Roots the heap item that the pointer points to in a new cell of `cx`.
    #[inline]
    pub fn to_stack(self, cx: &mut Context) -> (root: StackRoot<T>)
        requires
            !self.is_dangling_spec(),
            old(cx).handle_context.wf(),
            old(cx).handle_context.has_room(),
        ensures
            final(cx).handle_context.wf(),
            final(cx).handle_context@ == old(cx).handle_context@.push(
                CellView { address: root@, contents: self@ },
            ),
            final(cx).handle_context.contents_at(root@) == Some(self@),
            old(cx).handle_context.keeps_scopes(&final(cx).handle_context),
            final(cx).handle_context.room() == old(cx).handle_context.room() - 1,
            final(cx).same_but_handles(old(cx)),
    {
        StackRoot::new(&mut cx.handle_context, self.as_ptr())
    }
}

/// The items that can leave a scope: what they hold of the scope is put into
/// new cells of the scope around it.
///
/// An item is captured while its scope is still entered: the contents of the
/// cells that it refers to are read. After the scope has been exited, the item
/// is released: for each captured content a new cell is made, and the item is
/// rebuilt around the new cells.
pub trait Escapable: Sized {
    /// What is kept of an item while its scope is exited.
    type Captured;

    /// What capturing the item yields, for the stack of cells `handles`.
    spec fn captured(&self, handles: &StackRootContext) -> Self::Captured;

    /// The contents of the cells that releasing `captured` makes, in order.
    spec fn cells(captured: &Self::Captured) -> Seq<StackRootContents>;

    /// The addresses of the cells that the item refers to, in order.
    spec fn roots(&self) -> Seq<usize>;

    /// Reads what the item holds of its scope.
    fn capture(&self, cx: &Context) -> (captured: Self::Captured)
        requires
            cx.handle_context.wf(),
        ensures
            captured == self.captured(&cx.handle_context),
    ;

    /// Makes a new cell for each captured content and rebuilds the item around
    /// the new cells. The cells that were live and the scopes stay as they are.
    fn release(captured: Self::Captured, cx: &mut Context) -> (item: Self)
        requires
            old(cx).handle_context.wf(),
            old(cx).handle_context.room() >= Self::cells(&captured).len(),
        ensures
            final(cx).handle_context.wf(),
            final(cx).same_but_handles(old(cx)),
            old(cx).handle_context.keeps_scopes(&final(cx).handle_context),
            rerooted(
                &old(cx).handle_context,
                &final(cx).handle_context,
                Self::cells(&captured),
                item.roots(),
            ),
    ;

    /// Puts what the item holds of the current scope into new cells of the same
    /// scope and returns the item around the new cells.
    fn escape(&self, cx: &mut Context) -> (item: Self)
        requires
            old(cx).handle_context.wf(),
            old(cx).handle_context.room() >= Self::cells(
                &self.captured(&old(cx).handle_context),
            ).len(),
        ensures
            final(cx).handle_context.wf(),
            final(cx).same_but_handles(old(cx)),
            old(cx).handle_context.keeps_scopes(&final(cx).handle_context),
            rerooted(
                &old(cx).handle_context,
                &final(cx).handle_context,
                Self::cells(&self.captured(&old(cx).handle_context)),
                item.roots(),
            ),
    {
        let captured = self.capture(cx);
        Self::release(captured, cx)
    }
}

/// Whether `after` is `before` with one new cell on top for each of
/// `contents`, in order, at the addresses `roots`.
pub open spec fn rerooted(
    before: &StackRootContext,
    after: &StackRootContext,
    contents: Seq<StackRootContents>,
    roots: Seq<usize>,
) -> bool {
    &&& after@.len() == before@.len() + contents.len()
    &&& roots.len() == contents.len()
    &&& before.keeps_cells(after, before@.len() as int)
    &&& forall|k: int|
        0 <= k < contents.len() ==> (#[trigger] after@[before@.len() + k]) == (CellView {
            address: roots[k],
            contents: contents[k],
        })
    &&& after.room() == before.room() - contents.len()
}

impl Escapable for () {
    type Captured = ();

    open spec fn captured(&self, handles: &StackRootContext) -> () {
        ()
    }

    open spec fn cells(captured: &()) -> Seq<StackRootContents> {
        Seq::empty()
    }

    open spec fn roots(&self) -> Seq<usize> {
        Seq::empty()
    }

    #[inline]
    fn capture(&self, cx: &Context) -> (captured: ()) {
        ()
    }

    #[inline]
    fn release(captured: (), cx: &mut Context) -> (item: ()) {
        ()
    }
}

impl Escapable for u32 {
    type Captured = u32;

    open spec fn captured(&self, handles: &StackRootContext) -> u32 {
        *self
    }

    open spec fn cells(captured: &u32) -> Seq<StackRootContents> {
        Seq::empty()
    }

    open spec fn roots(&self) -> Seq<usize> {
        Seq::empty()
    }

    #[inline]
    fn capture(&self, cx: &Context) -> (captured: u32) {
        *self
    }

    #[inline]
    fn release(captured: u32, cx: &mut Context) -> (item: u32)
        ensures
            item == captured,
    {
        captured
    }
}

impl Escapable for Value {
    type Captured = Value;

    open spec fn captured(&self, handles: &StackRootContext) -> Value {
        *self
    }

    open spec fn cells(captured: &Value) -> Seq<StackRootContents> {
        Seq::empty()
    }

    open spec fn roots(&self) -> Seq<usize> {
        Seq::empty()
    }

    #[inline]
    fn capture(&self, cx: &Context) -> (captured: Value) {
        *self
    }

    #[inline]
    fn release(captured: Value, cx: &mut Context) -> (item: Value)
        ensures
            item == captured,
    {
        captured
    }
}

impl<T> Escapable for HeapPtr<T> {
    type Captured = HeapPtr<T>;

    open spec fn captured(&self, handles: &StackRootContext) -> HeapPtr<T> {
        *self
    }

    open spec fn cells(captured: &HeapPtr<T>) -> Seq<StackRootContents> {
        Seq::empty()
    }

    open spec fn roots(&self) -> Seq<usize> {
        Seq::empty()
    }

    #[inline]
    fn capture(&self, cx: &Context) -> (captured: HeapPtr<T>) {
        *self
    }

    #[inline]
    fn release(captured: HeapPtr<T>, cx: &mut Context) -> (item: HeapPtr<T>)
        ensures
            item == captured,
    {
        captured
    }
}

impl<T> Escapable for StackRoot<T> {
    /// What the cell of the root holds, if the cell is live.
    type Captured = Option<StackRootContents>;

    open spec fn captured(&self, handles: &StackRootContext) -> Option<StackRootContents> {
        handles.contents_at(self@)
    }

    open spec fn cells(captured: &Option<StackRootContents>) -> Seq<StackRootContents> {
        match *captured {
            Some(contents) => seq![contents],
            None => Seq::empty(),
        }
    }

    open spec fn roots(&self) -> Seq<usize> {
        if self.is_dangling_spec() {
            Seq::empty()
        } else {
            seq![self@]
        }
    }

    #[inline]
    fn capture(&self, cx: &Context) -> (captured: Option<StackRootContents>) {
        self.get(&cx.handle_context)
    }

    /// A root of a new cell with the captured contents; a dangling root if the
    /// cell of the captured root was not live.
    #[inline]
    fn release(captured: Option<StackRootContents>, cx: &mut Context) -> (item: StackRoot<T>) {
        match captured {
            Some(contents) => StackRoot::new(&mut cx.handle_context, contents),
            None => StackRoot::dangling(),
        }
    }
}

impl<T: Escapable> Escapable for Option<T> {
    type Captured = Option<T::Captured>;

    open spec fn captured(&self, handles: &StackRootContext) -> Option<T::Captured> {
        match self {
            Some(some) => Some(some.captured(handles)),
            None => None,
        }
    }

    open spec fn cells(captured: &Option<T::Captured>) -> Seq<StackRootContents> {
        match captured {
            Some(some) => T::cells(some),
            None => Seq::empty(),
        }
    }

    open spec fn roots(&self) -> Seq<usize> {
        match self {
            Some(some) => some.roots(),
            None => Seq::empty(),
        }
    }

    #[inline]
    fn capture(&self, cx: &Context) -> (captured: Option<T::Captured>) {
        match self {
            Some(some) => Some(some.capture(cx)),
            None => None,
        }
    }

    #[inline]
    fn release(captured: Option<T::Captured>, cx: &mut Context) -> (item: Option<T>) {
        match captured {
            Some(some) => Some(T::release(some, cx)),
            None => None,
        }
    }
}

impl<T: Escapable, E: Escapable> Escapable for Result<T, E> {
    type Captured = Result<T::Captured, E::Captured>;

    open spec fn captured(&self, handles: &StackRootContext) -> Result<T::Captured, E::Captured> {
        match self {
            Ok(ok) => Ok(ok.captured(handles)),
            Err(err) => Err(err.captured(handles)),
        }
    }

    open spec fn cells(captured: &Result<T::Captured, E::Captured>) -> Seq<StackRootContents> {
        match captured {
            Ok(ok) => T::cells(ok),
            Err(err) => E::cells(err),
        }
    }

    open spec fn roots(&self) -> Seq<usize> {
        match self {
            Ok(ok) => ok.roots(),
            Err(err) => err.roots(),
        }
    }

    #[inline]
    fn capture(&self, cx: &Context) -> (captured: Result<T::Captured, E::Captured>) {
        match self {
            Ok(ok) => Ok(ok.capture(cx)),
            Err(err) => Err(err.capture(cx)),
        }
    }

    #[inline]
    fn release(captured: Result<T::Captured, E::Captured>, cx: &mut Context) -> (item: Result<
        T,
        E,
    >) {
        match captured {
            Ok(ok) => Ok(T::release(ok, cx)),
            Err(err) => Err(E::release(err, cx)),
        }
    }
}

impl<T: Escapable, U: Escapable> Escapable for (T, U) {
    type Captured = (T::Captured, U::Captured);

    open spec fn captured(&self, handles: &StackRootContext) -> (T::Captured, U::Captured) {
        (self.0.captured(handles), self.1.captured(handles))
    }

    open spec fn cells(captured: &(T::Captured, U::Captured)) -> Seq<StackRootContents> {
        T::cells(&captured.0) + U::cells(&captured.1)
    }

    open spec fn roots(&self) -> Seq<usize> {
        self.0.roots() + self.1.roots()
    }

    #[inline]
    fn capture(&self, cx: &Context) -> (captured: (T::Captured, U::Captured)) {
        (self.0.capture(cx), self.1.capture(cx))
    }

    /// Both parts are captured before a cell is made, so that a new cell cannot
    /// take the place of a cell that is still to be read.
    #[inline]
    fn release(captured: (T::Captured, U::Captured), cx: &mut Context) -> (item: (T, U)) {
        let ghost before = cx.handle_context;
        let (first_captured, second_captured) = captured;
        let first = T::release(first_captured, cx);
        let ghost middle = cx.handle_context;
        let second = U::release(second_captured, cx);
        proof {
            let after = cx.handle_context;
            let first_cells = T::cells(&first_captured);
            let second_cells = U::cells(&second_captured);
            assert forall|k: int| 0 <= k < (first_cells + second_cells).len() implies (
            #[trigger] after@[before@.len() + k]) == (CellView {
                address: (first.roots() + second.roots())[k],
                contents: (first_cells + second_cells)[k],
            }) by {
                if k < first_cells.len() {
                    assert(after@[before@.len() + k] == middle@[before@.len() + k]);
                } else {
                    assert(after@[middle@.len() + (k - first_cells.len())] == (CellView {
                        address: second.roots()[k - first_cells.len()],
                        contents: second_cells[k - first_cells.len()],
                    }));
                }
            }
        }
        (first, second)
    }
}

impl StackRootScope {
    /// Runs `f` in a scope of its own and lets its result escape into the
    /// current scope: enters a scope, calls `f`, and exits the scope with the
    /// result of `f` escaping.
    ///
    /// `f` is to leave the cells below its scope and the scopes around it as
    /// they are, and room for the cells of its result.
    #[inline]
    pub fn new<F: FnOnce(&mut Context) -> R, R: Escapable>(cx: &mut Context, f: F) -> (result: R)
        requires
            old(cx).handle_context.wf(),
            forall|c: &mut Context| c.handle_context.wf() ==> #[trigger] f.requires((c,)),
            forall|c: &mut Context, r: R| #[trigger]
                f.ensures((c,), r) ==> {
                    &&& final(c).handle_context.wf()
                    &&& c.handle_context.keeps_scopes(&final(c).handle_context)
                    &&& c.handle_context.keeps_cells(
                        &final(c).handle_context,
                        c.handle_context@.len() as int,
                    )
                    &&& final(c).handle_context.room() >= R::cells(
                        &r.captured(&final(c).handle_context),
                    ).len()
                },
        ensures
            final(cx).handle_context.wf(),
            final(cx).handle_context@.len() == old(cx).handle_context@.len()
                + result.roots().len(),
            old(cx).handle_context.keeps_cells(
                &final(cx).handle_context,
                old(cx).handle_context@.len() as int,
            ),
            forall|k: int|
                0 <= k < result.roots().len() ==> (#[trigger] final(cx).handle_context@[old(cx).handle_context@.len() + k]).address == result.roots()[k],
    {
        let stack_scope = Self::enter(cx);
        let result = f(cx);
        stack_scope.escape(cx, result)
    }

    /// Exits the scope and lets `result` escape into the scope around it: what
    /// `result` holds of the scope is read first, then the scope is exited,
    /// then a new cell is made for each content that was read.
    #[inline]
    pub fn escape<R: Escapable>(self, cx: &mut Context, result: R) -> (escaped: R)
        requires
            old(cx).handle_context.wf(),
            old(cx).handle_context.scope_valid(&self),
            old(cx).handle_context.room() >= R::cells(
                &result.captured(&old(cx).handle_context),
            ).len(),
        ensures
            final(cx).handle_context.wf(),
            final(cx).same_but_handles(old(cx)),
            ({
                let position = old(cx).handle_context.scope_position(&self);
                let contents = R::cells(&result.captured(&old(cx).handle_context));
                &&& final(cx).handle_context@.len() == position + contents.len()
                &&& escaped.roots().len() == contents.len()
                &&& old(cx).handle_context.keeps_cells(&final(cx).handle_context, position)
                &&& forall|k: int|
                    0 <= k < contents.len() ==> (#[trigger] final(cx).handle_context@[position
                        + k]) == (CellView { address: escaped.roots()[k], contents: contents[k] })
            }),
            old(cx).handle_context.keeps_scopes_around(&final(cx).handle_context, &self),
    {
        let captured = result.capture(cx);
        self.exit_non_consuming(cx);
        R::release(captured, cx)
    }
}

} // verus!
