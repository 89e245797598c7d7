//! Pointers into the managed heap and the visitor helpers of the runtime.

pub mod heap;
pub mod heap_item;
pub mod heap_visitor;
pub mod pointer;

pub use crate::visitor::GcVisitor;
pub use heap_item::{AnyHeapItem, HeapItem, IsHeapItem};
pub use heap_visitor::GcVisitorExt;
pub use pointer::HeapPtr;
