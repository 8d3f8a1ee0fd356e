//! Device memory suballocation.

pub mod block;
pub mod free_list;
pub mod pool;
pub mod buffer;
pub mod heap;
