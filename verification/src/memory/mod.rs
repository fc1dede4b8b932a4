//! Guest memory bookkeeping: physical (direct) memory areas and virtual memory areas.
pub mod physical_memory;
pub mod virtual_memory;
