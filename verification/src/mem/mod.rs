//! Physical frames, the page-table view and the kernel heap.

pub mod heap;
pub mod paging;
pub mod volatile;
