//! Stack roots: cells that keep temporary references alive across
//! collection points.

pub mod handle;

pub use handle::{
    Escapable, StackRoot, StackRootBlock, StackRootContents, StackRootContext, StackRootScope,
    StackRootScopeGuard, StackRootStats, ToStackRootContents,
};
