//! An incremental tri-color mark-sweep collector with verified contracts.
//!
//! The crate has two layers. The collector itself is in the modules at the top:
//!
//! - [`gc_header`]: the header of every managed object,
//! - [`gray_queue`]: the queue of objects that wait to be scanned,
//! - [`pointer`]: pointers to managed objects,
//! - [`visitor`]: the interfaces between the collector and its embedder,
//! - [`heap`]: the heap, with allocation, write barrier and the collection cycle,
//! - [`heap_model`]: the mathematical model that the heap is proved to follow,
//! - [`laws`]: what holds of every heap and of every cycle.
//!
//! The module [`runtime`] is the embedder's side as far as the collector is
//! concerned: stack roots and their scopes, tagged values, the kinds of heap
//! items with their descriptors, and the tracing of an item by its kind.
//!
//! Addresses are plain numbers. The heap hands out the addresses of its
//! objects itself, one block after the other, and never hands out an address
//! twice; the root cells lie in a region of their own.

pub mod gc_header;
pub mod gray_queue;
pub mod heap;
pub mod heap_model;
pub mod laws;
pub mod pointer;
pub mod runtime;
pub mod visitor;

pub use gc_header::{GcColor, GcHeader, GcPhase};
pub use heap::{AllocError, AllocResult, Heap, Marker};
pub use pointer::GcPtr;
pub use visitor::{GcContext, GcVisitor};
