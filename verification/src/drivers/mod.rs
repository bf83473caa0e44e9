//! Device drivers.
//!
//! Each says what is to be written to its device and takes what was read from
//! it. Who may touch the device, and when, is for whoever does the writing and
//! the reading.
pub mod ac97;
pub mod keyboard;
pub mod mouse;
pub mod pci;
pub mod port;
pub mod rtc;
pub mod speaker;
pub mod usb;
pub mod usb_storage;
pub mod virtio;
pub mod virtio_blk;
pub mod virtio_gpu;
pub mod virtio_net;
pub mod xhci;
pub mod xhci_rings;
