//! Generic devices and the per-device data a driver keeps: its
//! registrations, its hardware resources and its own state.
use vstd::prelude::*;
use crate::error::Error;
use crate::of::Node;

verus! {

/// Access to the platform's handle of a device.
pub trait RawDevice {
    /// The platform's handle of the device.
    fn raw_device(&self) -> usize;

    /// The device-tree node of the device, if it has one.
    fn of_node(&self) -> Option<Node>;
}

/// A device, by its platform handle.
pub struct Device {
    pub ptr: usize,
}

impl Device {
    /// The device with handle `ptr`.
    pub fn new(ptr: usize) -> (r: Self)
        ensures
            r.ptr == ptr,
    {
        Device { ptr }
    }

    /// The device behind `dev`.
    pub fn from_dev<D: RawDevice>(dev: &D) -> (r: Self) {
        Device::new(dev.raw_device())
    }
}

impl RawDevice for Device {
    fn raw_device(&self) -> usize {
        self.ptr
    }

    fn of_node(&self) -> Option<Node> {
        None
    }
}

/// A driver's data for one device: its registrations `T`, its resources
/// `U`, and its general state `V`.
pub struct Data<T, U, V> {
    regs: T,
    res: U,
    general: V,
}

impl<T, U, V> Data<T, U, V> {
    pub closed spec fn regs_spec(&self) -> T {
        self.regs
    }

    pub closed spec fn res_spec(&self) -> U {
        self.res
    }

    pub closed spec fn general_spec(&self) -> V {
        self.general
    }

    /// The data holding `regs`, `res` and `general`.
    pub fn try_new(regs: T, res: U, general: V) -> (r: Result<Self, Error>)
        ensures
            r matches Ok(d) && d.regs_spec() == regs && d.res_spec() == res && d.general_spec()
                == general,
    {
        Ok(Data { regs, res, general })
    }

    /// The registrations.
    pub fn registrations(&self) -> (r: Option<&T>)
        ensures
            r matches Some(x) && *x == self.regs_spec(),
    {
        Some(&self.regs)
    }

    /// The resources.
    pub fn res(&self) -> (r: Option<&U>)
        ensures
            r matches Some(x) && *x == self.res_spec(),
    {
        Some(&self.res)
    }

    /// The general state.
    pub fn general(&self) -> (r: &V)
        ensures
            *r == self.general_spec(),
    {
        &self.general
    }
}

} // verus!
