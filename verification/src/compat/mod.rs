//! Programs built for another system, and the calls they make.
//!
//! Each module here turns calls from one family into what the kernel underneath
//! is to do about them, and into the answer the program finds in its return
//! register.
pub mod error;
pub mod frame;
pub mod linux;
pub mod linux32;
pub mod linux_display;
pub mod linux_exec;
pub mod linux_files;
pub mod linux_memory;
pub mod linux_more;
pub mod linux_poll;
pub mod linux_signal;
pub mod linux_socket;
pub mod linux_threads;
pub mod reply;
pub mod vectors;
