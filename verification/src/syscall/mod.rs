pub mod calls;
pub mod clock;
pub mod console;
pub mod dirs;
pub mod dispatch;
pub mod fdcalls;
pub mod files;
pub mod memory;
pub mod paths;
pub mod process;
pub mod reads;
pub mod signals;
pub mod state;
pub mod table;
pub mod task;
pub mod probe;
pub mod frame;
pub mod ipc;
pub mod laws;
