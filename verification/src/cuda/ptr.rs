//! Addresses of device memory.
use vstd::prelude::*;

verus! {

/// The null device address.
pub const DEVICE_NULL: usize = 0;

/// The address of something in device memory; never null.
#[derive(Clone, Copy)]
pub struct DeviceNonNull {
    addr: usize,
}

impl DeviceNonNull {
    #[verifier::type_invariant]
    spec fn inv(self) -> bool {
        self.addr != DEVICE_NULL
    }

    /// The address as a number.
    pub closed spec fn addr(self) -> usize {
        self.addr
    }

    /// Takes an address that is known not to be null.
    pub fn new_unchecked(addr: usize) -> (r: DeviceNonNull)
        requires
            addr != DEVICE_NULL,
        ensures
            r.addr() == addr,
    {
        DeviceNonNull { addr }
    }

    /// Takes an address if it is not null.
    pub fn new(addr: usize) -> (r: Option<DeviceNonNull>)
        ensures
            r is Some <==> addr != DEVICE_NULL,
            r matches Some(p) ==> p.addr() == addr,
    {
        if addr == DEVICE_NULL {
            None
        } else {
            Some(DeviceNonNull { addr })
        }
    }

    /// The address as a number; never null.
    pub fn as_ptr(&self) -> (r: usize)
        ensures
            r == self.addr(),
            r != DEVICE_NULL,
    {
        proof {
            use_type_invariant(self);
        }
        self.addr
    }
}

} // verus!
