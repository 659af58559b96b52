//! Region-based memory management: the mathematical model of a region's
//! heap, the list of free spans, and the allocator that serves one region.

pub mod heap_model;
pub mod list_allocator;
pub mod span_list;
