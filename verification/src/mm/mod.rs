pub mod frame;
pub mod heap;
pub mod pager;
