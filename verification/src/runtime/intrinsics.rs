//! Heap items of the built-in objects, as far as the collector is concerned.

pub mod weak_map_object;
