//! The kernel's clocks.
use vstd::prelude::*;
use crate::time::{Clock, Monotonic};

verus! {

/// The kernel's monotonic time.
pub struct KernelTime;

impl Clock for KernelTime {

}

impl Monotonic for KernelTime {

}

/// The time since boot.
pub struct UpTime;

impl Clock for UpTime {

}

impl Monotonic for UpTime {

}

} // verus!
