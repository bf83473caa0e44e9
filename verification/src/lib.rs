//! The decisions of the NexusOS kernel's Linux layer, device drivers and
//! display, as values in and values out.
//!
//! Nothing here touches a port, a page table or another thread. Every function
//! takes what was read from the machine and says what is to be written to it,
//! so that what the kernel decides can be stated and proved apart from the
//! hardware it decides about.
pub mod bytes;
pub mod compat;
pub mod count;
pub mod crash;
pub mod display;
pub mod drivers;
pub mod framebuffer;
pub mod names;
pub mod pairs;
pub mod table;
pub mod text;
