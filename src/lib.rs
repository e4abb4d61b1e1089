//! Host-side core of a firmware bridge for Apple AGX-family GPUs: slot
//! allocation, IO page tables, firmware channels, events, workqueues,
//! microsequence encoding and the generation-specific GPU manager, together
//! with the small kernel abstractions they are built on.
pub mod channel;
pub mod clock;
pub mod device;
pub mod error;
pub mod event;
pub mod gpu;
pub mod hw;
pub mod io_mem;
pub mod io_pgtable;
pub mod ioctl;
pub mod microseq;
pub mod of;
pub mod platform;
pub mod shmem;
pub mod slotalloc;
pub mod time;
pub mod workqueue;

