//! Ioctl command numbers: direction, parameter length, group and number
//! packed into one word.
use vstd::prelude::*;

verus! {

/// Mask of the parameter-length field.
pub const IOCPARM_MASK: u64 = 0x1fff;

/// Direction bits: no parameter.
pub const IOC_VOID: u64 = 0x2000_0000;

/// Direction bits: the parameter is copied out to the caller.
pub const IOC_OUT: u64 = 0x4000_0000;

/// Direction bits: the parameter is copied in from the caller.
pub const IOC_IN: u64 = 0x8000_0000;

/// Direction bits: the parameter is copied both ways.
pub const IOC_INOUT: u64 = 0xc000_0000;

/// The command word for direction `inout`, group `group`, number `num` and
/// a parameter of `len` bytes.
pub open spec fn ioc_spec(inout: u64, group: u64, num: u64, len: u64) -> u64 {
    inout | ((len & IOCPARM_MASK) << 16u64) | (group << 8u64) | num
}

/// Packs a command word; only the low 13 bits of `len` are kept.
#[allow(non_snake_case)]
pub fn _IOC(inout: u64, group: u64, num: u64, len: usize) -> (r: u64)
    ensures
        r == ioc_spec(inout, group, num, len as u64),
{
    inout | (((len as u64) & IOCPARM_MASK) << 16u64) | (group << 8u64) | num
}

/// A command without a parameter.
#[allow(non_snake_case)]
pub fn _IO(group: u64, num: u64) -> (r: u64)
    ensures
        r == ioc_spec(IOC_VOID, group, num, 0),
{
    _IOC(IOC_VOID, group, num, 0)
}

/// A command whose parameter, a `T`, is copied out.
#[allow(non_snake_case)]
pub fn _IOR<T>(group: u64, num: u64) -> (r: u64)
    ensures
        r == ioc_spec(IOC_OUT, group, num, vstd::layout::size_of::<T>() as usize as u64),
{
    _IOC(IOC_OUT, group, num, core::mem::size_of::<T>())
}

/// A command whose parameter, a `T`, is copied in.
#[allow(non_snake_case)]
pub fn _IOW<T>(group: u64, num: u64) -> (r: u64)
    ensures
        r == ioc_spec(IOC_IN, group, num, vstd::layout::size_of::<T>() as usize as u64),
{
    _IOC(IOC_IN, group, num, core::mem::size_of::<T>())
}

/// A command whose parameter, a `T`, is copied in and out.
#[allow(non_snake_case)]
pub fn _IOWR<T>(group: u64, num: u64) -> (r: u64)
    ensures
        r == ioc_spec(IOC_INOUT, group, num, vstd::layout::size_of::<T>() as usize as u64),
{
    _IOC(IOC_INOUT, group, num, core::mem::size_of::<T>())
}

} // verus!
