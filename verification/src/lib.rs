pub mod arch;
pub mod block;
pub mod bstr;
pub mod compress;
pub mod devfs;
pub mod exec;
pub mod fat;
pub mod fb;
pub mod fmt;
pub mod init_exec;
pub mod initrd;
pub mod le;
pub mod limine;
pub mod log;
pub mod mm;
pub mod num;
pub mod power;
pub mod procfs;
pub mod sched;
pub mod serial;
pub mod smp;
pub mod syscall;
pub mod text;
pub mod time;
pub mod tty;
pub mod uaccess;
pub mod vfs;

