//! The runtime's side of the managed heap: typed pointers, tagged values,
//! stack roots, and the descriptors of heap items.
//!
//! The runtime keeps the body of every heap item in a store of its own, by the
//! address that the managed heap has handed out for the item. The body starts
//! with the pointer to the descriptor of the item; the descriptor tells the
//! kind, and the kind tells how the body is traced. A tagged value is one word:
//! a pointer if it is not zero and 8-byte aligned, an immediate otherwise.

pub mod accessor;
pub mod context;
pub mod gc;
pub mod heap_item_descriptor;
pub mod intrinsics;
pub mod rust_vtables;
pub mod stack;
pub mod value;

pub use context::Context;
pub use gc::{GcVisitorExt, HeapPtr};
pub use stack::{
    Escapable, StackRoot, StackRootBlock, StackRootContents, StackRootContext, StackRootScope,
    StackRootScopeGuard, StackRootStats, ToStackRootContents,
};
pub use value::Value;
